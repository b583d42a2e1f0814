//! The retained layout: a binary tree of splits whose leaves are areas. Each
//! area hosts one editor. Changes only when the user splits, joins or drags
//! a separator.
//!
//! Nodes and areas live in slot vectors; a removed one leaves an empty slot
//! that the next allocation reuses. The split ratio (`R`) and an area's
//! viewport settings (`V`) are carried for the host, which lays the tree
//! out in pixels.

use vstd::prelude::*;

use crate::ui::editors::EditorKind;

verus! {

#[derive(Clone, Copy, Debug, PartialEq, Eq, Structural)]
pub enum Axis {
    /// Children side by side (a vertical separator).
    Horizontal,
    /// Children stacked (a horizontal separator).
    Vertical,
}

pub enum Node<R> {
    Split { axis: Axis, ratio: R, first: usize, second: usize },
    Leaf(usize),
}

pub struct Area<V> {
    pub editor: EditorKind,
    /// Camera and display settings when this area is a 3D viewport.
    pub viewport: V,
}

pub struct Screen<V, R> {
    nodes: Vec<Option<Node<R>>>,
    areas: Vec<Option<Area<V>>>,
    root: usize,
    /// The area that receives keyboard input.
    active: Option<usize>,
    /// Each node lies deeper than its parent: the splits form a tree.
    depth: Ghost<Map<usize, nat>>,
}

/// Slot `n` is a leaf showing area `a`.
pub open spec fn is_leaf_of<R>(n: Option<Node<R>>, a: usize) -> bool {
    n matches Some(Node::Leaf(x)) && x == a
}

/// Slot `n` is a split with child `c`.
pub open spec fn has_child<R>(n: Option<Node<R>>, c: usize) -> bool {
    n matches Some(Node::Split { first, second, .. }) && (first == c || second == c)
}

/// Slot `i` holding `n`: if a split, its children are two other filled
/// slots, neither the root, both deeper than it.
pub open spec fn split_ok<R>(nodes: Seq<Option<Node<R>>>, root: usize, d: Map<usize, nat>, i: int, n: Option<Node<R>>) -> bool {
    n matches Some(Node::Split { first, second, .. }) ==> {
        &&& first < nodes.len()
        &&& second < nodes.len()
        &&& first != second
        &&& nodes[first as int] is Some
        &&& nodes[second as int] is Some
        &&& first != root
        &&& second != root
        &&& d[first] > d[i as usize]
        &&& d[second] > d[i as usize]
    }
}

/// Slot `i` is the first empty one.
pub open spec fn first_none_at<T>(s: Seq<Option<T>>, i: int) -> bool {
    &&& 0 <= i < s.len()
    &&& s[i] is None
    &&& forall|j: int| 0 <= j < i ==> s[j] is Some
}

/// The first empty slot, or the length when there is none.
pub open spec fn first_free<T>(s: Seq<Option<T>>) -> int {
    if exists|i: int| first_none_at(s, i) {
        choose|i: int| first_none_at(s, i)
    } else {
        s.len() as int
    }
}

/// The first empty slot is one (it is empty and none before it is), or
/// there is no empty slot and it is the length.
pub proof fn lemma_first_free<T>(s: Seq<Option<T>>)
    ensures
        0 <= first_free(s) <= s.len(),
        first_free(s) < s.len() ==> first_none_at(s, first_free(s)),
        first_free(s) == s.len() ==> forall|j: int| 0 <= j < s.len() ==> s[j] is Some,
{
    if !exists|i: int| first_none_at(s, i) {
        assert forall|j: int| 0 <= j < s.len() implies s[j] is Some by {
            if s[j] is None {
                lemma_some_first_none(s, j);
            }
        }
    }
}

proof fn lemma_some_first_none<T>(s: Seq<Option<T>>, i: int)
    requires
        0 <= i < s.len(),
        s[i] is None,
    ensures
        exists|k: int| first_none_at(s, k),
    decreases i,
{
    if forall|j: int| 0 <= j < i ==> s[j] is Some {
        assert(first_none_at(s, i));
    } else {
        let j = choose|j: int| 0 <= j < i && !(s[j] is Some);
        lemma_some_first_none(s, j);
    }
}

/// `s` with `x` stored in its first empty slot (or appended).
pub open spec fn put<T>(s: Seq<Option<T>>, x: T) -> Seq<Option<T>> {
    if first_free(s) < s.len() {
        s.update(first_free(s), Some(x))
    } else {
        s.push(Some(x))
    }
}

/// How many slots are filled.
pub open spec fn count_some<T>(s: Seq<Option<T>>) -> nat
    decreases s.len(),
{
    if s.len() == 0 {
        0
    } else {
        count_some(s.drop_last()) + if s.last() is Some { 1nat } else { 0nat }
    }
}

/// The first filled slot.
pub open spec fn first_some<T>(s: Seq<Option<T>>) -> Option<int> {
    if exists|i: int| 0 <= i < s.len() && s[i] is Some {
        Some(choose|i: int| 0 <= i < s.len() && s[i] is Some && forall|j: int| 0 <= j < i ==> s[j] is None)
    } else {
        None
    }
}

/// The root slot is filled.
#[verifier::opaque]
pub open spec fn wf_root<R>(nodes: Seq<Option<Node<R>>>, root: usize) -> bool {
    root < nodes.len() && nodes[root as int] is Some
}

/// Every filled slot has a depth.
#[verifier::opaque]
pub open spec fn wf_dom<R>(nodes: Seq<Option<Node<R>>>, d: Map<usize, nat>) -> bool {
    forall|i: int| 0 <= i < nodes.len() ==> #[trigger] nodes[i] is Some ==> d.dom().contains(i as usize)
}

/// Every split's children are filled, distinct, not the root, deeper.
#[verifier::opaque]
pub open spec fn wf_splits<R>(nodes: Seq<Option<Node<R>>>, root: usize, d: Map<usize, nat>) -> bool {
    forall|i: int| 0 <= i < nodes.len() ==> split_ok(nodes, root, d, i, #[trigger] nodes[i])
}

/// No node has two parents.
#[verifier::opaque]
pub open spec fn wf_one_parent<R>(nodes: Seq<Option<Node<R>>>) -> bool {
    forall|i: int, j: int, c: usize|
        0 <= i < nodes.len() && 0 <= j < nodes.len() && #[trigger] has_child(nodes[i], c) && #[trigger] has_child(nodes[j], c) ==> i == j
}

/// Every filled node but the root has a parent.
#[verifier::opaque]
pub open spec fn wf_has_parent<R>(nodes: Seq<Option<Node<R>>>, root: usize) -> bool {
    forall|c: int|
        0 <= c < nodes.len() && #[trigger] nodes[c] is Some && c != root ==> exists|i: int|
            0 <= i < nodes.len() && #[trigger] has_child(nodes[i], c as usize)
}

/// Every leaf shows an existing area.
#[verifier::opaque]
pub open spec fn wf_leaf_area<V, R>(nodes: Seq<Option<Node<R>>>, areas: Seq<Option<Area<V>>>) -> bool {
    forall|i: int, a: usize| 0 <= i < nodes.len() && #[trigger] is_leaf_of(nodes[i], a) ==> a < areas.len() && areas[a as int] is Some
}

/// Every area shows in a leaf.
#[verifier::opaque]
pub open spec fn wf_area_leaf<V, R>(nodes: Seq<Option<Node<R>>>, areas: Seq<Option<Area<V>>>) -> bool {
    forall|a: int|
        0 <= a < areas.len() && #[trigger] areas[a] is Some ==> exists|i: int|
            0 <= i < nodes.len() && #[trigger] is_leaf_of(nodes[i], a as usize)
}

/// No area shows in two leaves.
#[verifier::opaque]
pub open spec fn wf_one_leaf<R>(nodes: Seq<Option<Node<R>>>) -> bool {
    forall|i: int, j: int, a: usize|
        0 <= i < nodes.len() && 0 <= j < nodes.len() && #[trigger] is_leaf_of(nodes[i], a) && #[trigger] is_leaf_of(nodes[j], a) ==> i == j
}

/// The slots form a tree: the root is filled; every split's children are
/// filled, distinct, not the root, deeper than it, and have no other parent;
/// every filled node but the root has a parent; every leaf shows an area,
/// and every area shows in exactly one leaf.
pub open spec fn tree_wf<V, R>(nodes: Seq<Option<Node<R>>>, areas: Seq<Option<Area<V>>>, root: usize, d: Map<usize, nat>) -> bool {
    &&& wf_root(nodes, root)
    &&& wf_dom(nodes, d)
    &&& wf_splits(nodes, root, d)
    &&& wf_one_parent(nodes)
    &&& wf_has_parent(nodes, root)
    &&& wf_leaf_area(nodes, areas)
    &&& wf_area_leaf(nodes, areas)
    &&& wf_one_leaf(nodes)
}

/// What a successful `split` of `area` does: `area`'s leaf becomes a split
/// whose first child shows `area` and whose second shows the new area `n`,
/// stored with `x` in the first empty area slot; both new leaves go to the
/// first empty node slots.
pub open spec fn split_post<V, R>(
    n0: Seq<Option<Node<R>>>,
    a0: Seq<Option<Area<V>>>,
    area: usize,
    axis: Axis,
    ratio: R,
    x: Area<V>,
    n1: Seq<Option<Node<R>>>,
    a1: Seq<Option<Area<V>>>,
    n: usize,
) -> bool {
    let fa = first_free(n0);
    let fb = first_free(put(n0, Node::Leaf(area)));
    &&& n == first_free(a0)
    &&& a1 == put(a0, x)
    &&& exists|leaf: int| {
        &&& 0 <= leaf < n0.len()
        &&& is_leaf_of(n0[leaf], area)
        &&& n1 == put(put(n0, Node::Leaf(area)), Node::Leaf(n)).update(
            leaf,
            Some(Node::Split { axis, ratio, first: fa as usize, second: fb as usize }),
        )
    }
}

/// What a successful `join` of `area` does: the area's slot is emptied, and
/// its leaf's parent is replaced by the leaf's sibling.
pub open spec fn join_post<V, R>(n0: Seq<Option<Node<R>>>, a0: Seq<Option<Area<V>>>, area: usize, n1: Seq<Option<Node<R>>>, a1: Seq<Option<Area<V>>>) -> bool {
    &&& a1 == a0.update(area as int, None)
    &&& exists|leaf: int, parent: int, sibling: int| {
        &&& is_leaf_of(n0[leaf], area)
        &&& join_shape(n0, n1, leaf, parent, sibling)
    }
}

/// Filling an empty slot, or adding a filled one, counts one more.
pub proof fn lemma_count_put<T>(s: Seq<Option<T>>, x: T)
    ensures
        count_some(put(s, x)) == count_some(s) + 1,
{
    lemma_first_free(s);
    let f = first_free(s);
    if f < s.len() {
        lemma_count_update(s, f, Some(x));
    } else {
        assert(put(s, x).drop_last() =~= s);
    }
}

/// Emptying a filled slot counts one less.
pub proof fn lemma_count_update<T>(s: Seq<Option<T>>, i: int, v: Option<T>)
    requires
        0 <= i < s.len(),
    ensures
        count_some(s.update(i, v)) + (if s[i] is Some { 1int } else { 0int }) == count_some(s) + (if v is Some { 1int } else { 0int }),
    decreases s.len(),
{
    let t = s.update(i, v);
    if i == s.len() - 1 {
        assert(t.drop_last() =~= s.drop_last());
    } else {
        lemma_count_update(s.drop_last(), i, v);
        assert(t.drop_last() =~= s.drop_last().update(i, v));
    }
}

/// Splitting an area and then joining the new area away again gives back
/// the layout as it was: every slot that existed holds what it held, and
/// any slot added on the way is empty again.
pub proof fn law_split_then_join<V, R>(
    n0: Seq<Option<Node<R>>>,
    a0: Seq<Option<Area<V>>>,
    root: usize,
    d0: Map<usize, nat>,
    area: usize,
    axis: Axis,
    ratio: R,
    x: Area<V>,
    n1: Seq<Option<Node<R>>>,
    a1: Seq<Option<Area<V>>>,
    new_area: usize,
    d1: Map<usize, nat>,
    n2: Seq<Option<Node<R>>>,
    a2: Seq<Option<Area<V>>>,
)
    requires
        tree_wf(n0, a0, root, d0),
        split_post(n0, a0, area, axis, ratio, x, n1, a1, new_area),
        tree_wf(n1, a1, root, d1),
        join_post(n1, a1, new_area, n2, a2),
        n1.len() <= usize::MAX,
    ensures
        n2.len() >= n0.len(),
        forall|k: int| 0 <= k < n0.len() ==> #[trigger] n2[k] == n0[k],
        forall|k: int| n0.len() <= k < n2.len() ==> #[trigger] n2[k] is None,
        a2.len() >= a0.len(),
        forall|k: int| 0 <= k < a0.len() ==> #[trigger] a2[k] == a0[k],
        forall|k: int| a0.len() <= k < a2.len() ==> #[trigger] a2[k] is None,
{
    let leaf = choose|leaf: int| {
        &&& 0 <= leaf < n0.len()
        &&& is_leaf_of(n0[leaf], area)
        &&& n1 == put(put(n0, Node::Leaf(area)), Node::Leaf(new_area)).update(
            leaf,
            Some(Node::Split { axis, ratio, first: first_free(n0) as usize, second: first_free(put(n0, Node::Leaf(area))) as usize }),
        )
    };
    let fa = first_free(n0);
    let fb = first_free(put(n0, Node::Leaf(area)));
    lemma_put(n0, Node::Leaf(area));
    lemma_put(put(n0, Node::Leaf(area)), Node::Leaf(new_area));
    assert(fa < n1.len() && fb < n1.len());
    lemma_split_shape(n0, a0, leaf, area, new_area, fa as usize, fb as usize, axis, ratio, x, n1, a1);
    let (l2, p2, s2) = choose|l: int, p: int, s: int| is_leaf_of(n1[l], new_area) && join_shape(n1, n2, l, p, s);
    reveal(wf_one_leaf);
    reveal(wf_one_parent);
    assert(l2 == fb);
    assert(has_child(n1[leaf], fb as usize));
    assert(has_child(n1[p2], fb as usize));
    assert(p2 == leaf);
    assert(s2 == fa);
    assert forall|k: int| 0 <= k < n0.len() implies #[trigger] n2[k] == n0[k] by {
        if k == leaf {
        } else if k == fa {
        } else if k == fb {
        } else {
            assert(n1[k] == n0[k]);
        }
    }
    assert forall|k: int| n0.len() <= k < n2.len() implies #[trigger] n2[k] is None by {
        assert(k == fa || k == fb);
    }
    lemma_first_free(a0);
}

impl<V, R> Screen<V, R> {
    /// The tree's node slots.
    pub closed spec fn nodes_view(&self) -> Seq<Option<Node<R>>> {
        self.nodes@
    }

    /// The area slots.
    pub closed spec fn areas_view(&self) -> Seq<Option<Area<V>>> {
        self.areas@
    }

    /// The slot of the root node.
    pub closed spec fn root_spec(&self) -> usize {
        self.root
    }

    /// The area that receives keyboard input.
    pub closed spec fn active_spec(&self) -> Option<usize> {
        self.active
    }

    pub closed spec fn wf(&self) -> bool {
        tree_wf(self.nodes_view(), self.areas_view(), self.root, self.depth@)
    }

    /// One area filling the window.
    pub fn new(editor: EditorKind, viewport: V) -> (s: Self)
        ensures
            s.wf(),
            s.nodes_view().len() == 1,
            is_leaf_of(s.nodes_view()[0], 0),
            s.areas_view().len() == 1,
            s.areas_view()[0] == Some(Area { editor, viewport }),
            s.root_spec() == 0,
            s.active_spec() == Some(0usize),
    {
        let mut nodes: Vec<Option<Node<R>>> = Vec::new();
        nodes.push(Some(Node::Leaf(0)));
        let mut areas: Vec<Option<Area<V>>> = Vec::new();
        areas.push(Some(Area { editor, viewport }));
        let ghost d: Map<usize, nat> = map![0usize => 0nat];
        let s = Screen { nodes, areas, root: 0, active: Some(0), depth: Ghost(d) };
        proof {
            reveal(wf_root);
            reveal(wf_dom);
            reveal(wf_splits);
            reveal(wf_one_parent);
            reveal(wf_has_parent);
            reveal(wf_leaf_area);
            reveal(wf_area_leaf);
            reveal(wf_one_leaf);
            assert(is_leaf_of(s.nodes_view()[0], 0));
            assert forall|a: int| 0 <= a < s.areas_view().len() && #[trigger] s.areas_view()[a] is Some implies exists|i: int|
                0 <= i < s.nodes_view().len() && #[trigger] is_leaf_of(s.nodes_view()[i], a as usize) by {
                assert(is_leaf_of(s.nodes_view()[0], a as usize));
            }
        }
        s
    }

    /// The slot of the root node.
    pub fn root(&self) -> (r: usize)
        ensures
            r == self.root_spec(),
    {
        self.root
    }

    /// How many node slots there are (some may be empty).
    pub fn node_count(&self) -> (r: usize)
        ensures
            r == self.nodes_view().len(),
    {
        self.nodes.len()
    }

    /// The node in slot `i`, if any.
    pub fn node(&self, i: usize) -> (r: Option<&Node<R>>)
        ensures
            match r {
                Some(n) => i < self.nodes_view().len() && self.nodes_view()[i as int] == Some(*n),
                None => i >= self.nodes_view().len() || self.nodes_view()[i as int] is None,
            },
    {
        if i < self.nodes.len() {
            match &self.nodes[i] {
                Some(n) => Some(n),
                None => None,
            }
        } else {
            None
        }
    }

    /// The area that receives keyboard input.
    pub fn active(&self) -> (r: Option<usize>)
        ensures
            r == self.active_spec(),
    {
        self.active
    }

    /// Give keyboard input to `area` (or to none).
    pub fn set_active(&mut self, area: Option<usize>)
        requires
            old(self).wf(),
        ensures
            final(self).wf(),
            final(self).active_spec() == area,
            final(self).nodes_view() == old(self).nodes_view(),
            final(self).areas_view() == old(self).areas_view(),
            final(self).root_spec() == old(self).root_spec(),
    {
        self.active = area;
    }

    /// How many areas there are.
    pub fn area_count(&self) -> (r: usize)
        ensures
            r == count_some(self.areas_view()),
    {
        let mut n: usize = 0;
        let mut i: usize = 0;
        while i < self.areas.len()
            invariant
                i <= self.areas_view().len(),
                n == count_some(self.areas_view().take(i as int)),
                n <= i,
            decreases self.areas_view().len() - i,
        {
            proof {
                assert(self.areas_view().take(i + 1).drop_last() =~= self.areas_view().take(i as int));
            }
            if self.areas[i].is_some() {
                n = n + 1;
            }
            i = i + 1;
        }
        proof {
            assert(self.areas_view().take(i as int) =~= self.areas_view());
        }
        n
    }

    /// The area in slot `id`, if there is one.
    pub fn area(&self, id: usize) -> (r: Option<&Area<V>>)
        ensures
            match r {
                Some(a) => id < self.areas_view().len() && self.areas_view()[id as int] == Some(*a),
                None => id >= self.areas_view().len() || self.areas_view()[id as int] is None,
            },
    {
        if id < self.areas.len() {
            match &self.areas[id] {
                Some(a) => Some(a),
                None => None,
            }
        } else {
            None
        }
    }

    /// The leaf showing `area`.
    fn leaf_of(&self, area: usize) -> (r: Option<usize>)
        ensures
            match r {
                Some(i) => i < self.nodes_view().len() && is_leaf_of(self.nodes_view()[i as int], area),
                None => forall|i: int| 0 <= i < self.nodes_view().len() ==> !is_leaf_of(self.nodes_view()[i], area),
            },
    {
        let mut i: usize = 0;
        while i < self.nodes.len()
            invariant
                i <= self.nodes_view().len(),
                forall|k: int| 0 <= k < i ==> !is_leaf_of(self.nodes_view()[k], area),
            decreases self.nodes_view().len() - i,
        {
            match &self.nodes[i] {
                Some(Node::Leaf(a)) => {
                    if *a == area {
                        return Some(i);
                    }
                },
                _ => {},
            }
            i = i + 1;
        }
        None
    }

    /// The split that has `node` as a child.
    fn parent_of(&self, node: usize) -> (r: Option<usize>)
        ensures
            match r {
                Some(i) => i < self.nodes_view().len() && has_child(self.nodes_view()[i as int], node),
                None => forall|i: int| 0 <= i < self.nodes_view().len() ==> !has_child(self.nodes_view()[i], node),
            },
    {
        let mut i: usize = 0;
        while i < self.nodes.len()
            invariant
                i <= self.nodes_view().len(),
                forall|k: int| 0 <= k < i ==> !has_child(self.nodes_view()[k], node),
            decreases self.nodes_view().len() - i,
        {
            match &self.nodes[i] {
                Some(Node::Split { first, second, .. }) => {
                    if *first == node || *second == node {
                        return Some(i);
                    }
                },
                _ => {},
            }
            i = i + 1;
        }
        None
    }
}

impl<V, R> Screen<V, R> {
    /// Split `area` along `axis`. The existing area keeps the first `ratio`
    /// of the space; the new area (with `editor`) takes the rest. `None`
    /// when there is no such area.
    pub fn split(&mut self, area: usize, axis: Axis, ratio: R, editor: EditorKind, viewport: V) -> (r: Option<usize>)
        requires
            old(self).wf(),
        ensures
            final(self).wf(),
            final(self).root_spec() == old(self).root_spec(),
            final(self).active_spec() == old(self).active_spec(),
            match r {
                None => {
                    &&& !(area < old(self).areas_view().len() && old(self).areas_view()[area as int] is Some)
                    &&& final(self).nodes_view() == old(self).nodes_view()
                    &&& final(self).areas_view() == old(self).areas_view()
                },
                Some(n) => {
                    &&& area < old(self).areas_view().len() && old(self).areas_view()[area as int] is Some
                    &&& split_post(old(self).nodes_view(), old(self).areas_view(), area, axis, ratio, Area { editor, viewport }, final(self).nodes_view(), final(self).areas_view(), n)
                    &&& count_some(final(self).areas_view()) == count_some(old(self).areas_view()) + 1
                },
            },
    {
        let leaf = match self.leaf_of(area) {
            Some(l) => l,
            None => {
                proof {
                    reveal(wf_area_leaf);
                    if area < self.areas_view().len() && self.areas_view()[area as int] is Some {
                        let i = choose|i: int| 0 <= i < self.nodes_view().len() && #[trigger] is_leaf_of(self.nodes_view()[i], area as usize);
                        assert(is_leaf_of(self.nodes_view()[i], area));
                    }
                }
                return None;
            },
        };
        let ghost n0 = self.nodes_view();
        let ghost a0 = self.areas_view();
        let ghost d0 = self.depth@;
        let ghost root = self.root;
        proof {
            reveal(wf_leaf_area);
            lemma_first_free(a0);
            lemma_first_free(n0);
        }
        let new_area = store(&mut self.areas, Area { editor, viewport });
        let first = store(&mut self.nodes, Node::Leaf(area));
        let ghost n1 = self.nodes_view();
        proof {
            lemma_first_free(n1);
        }
        let second = store(&mut self.nodes, Node::Leaf(new_area));
        let ghost n2 = self.nodes_view();
        self.nodes.set(leaf, Some(Node::Split { axis, ratio, first, second }));
        let n_areas = self.areas.len();
        let n_nodes = self.nodes.len();
        proof {
            assert(self.areas_view().len() == n_areas && self.nodes_view().len() == n_nodes);
            let dl = d0[leaf];
            let d1 = d0.insert(first, dl + 1).insert(second, dl + 1);
            self.depth = Ghost(d1);
            lemma_split_shape(n0, a0, leaf as int, area, new_area, first, second, axis, ratio, Area { editor, viewport }, self.nodes_view(), self.areas_view());
            lemma_split_wf(n0, a0, root, d0, leaf as int, area, new_area, first as int, second as int, axis, ratio, Area { editor, viewport }, self.nodes_view(), self.areas_view(), d1);
            lemma_count_put(a0, Area { editor, viewport });
        }
        Some(new_area)
    }
}

impl<V, R> Screen<V, R> {
    /// The active area after `area` is removed: unchanged unless it was
    /// `area`, then the first remaining one.
    pub open spec fn active_after(active: Option<usize>, area: usize, areas: Seq<Option<Area<V>>>) -> Option<usize> {
        if active == Some(area) {
            match first_some(areas) {
                Some(i) => Some(i as usize),
                None => None,
            }
        } else {
            active
        }
    }

    /// Remove `area`; its sibling takes the parent's place. The last area
    /// cannot be removed (its leaf is the root), nor one that does not
    /// exist.
    pub fn join(&mut self, area: usize) -> (r: bool)
        requires
            old(self).wf(),
        ensures
            final(self).wf(),
            final(self).root_spec() == old(self).root_spec(),
            r == (area < old(self).areas_view().len() && old(self).areas_view()[area as int] is Some
                && !is_leaf_of(old(self).nodes_view()[old(self).root_spec() as int], area)),
            !r ==> final(self).nodes_view() == old(self).nodes_view() && final(self).areas_view() == old(self).areas_view()
                && final(self).active_spec() == old(self).active_spec(),
            r ==> {
                &&& join_post(old(self).nodes_view(), old(self).areas_view(), area, final(self).nodes_view(), final(self).areas_view())
                &&& final(self).active_spec() == Self::active_after(old(self).active_spec(), area, final(self).areas_view())
                &&& count_some(final(self).areas_view()) + 1 == count_some(old(self).areas_view())
            },
    {
        let leaf = match self.leaf_of(area) {
            Some(l) => l,
            None => {
                proof {
                    reveal(wf_area_leaf);
                    if area < self.areas_view().len() && self.areas_view()[area as int] is Some {
                        let i = choose|i: int| 0 <= i < self.nodes_view().len() && #[trigger] is_leaf_of(self.nodes_view()[i], area as usize);
                        assert(is_leaf_of(self.nodes_view()[i], area));
                    }
                }
                return false;
            },
        };
        proof {
            reveal(wf_leaf_area);
            assert(self.areas_view()[area as int] is Some);
        }
        let parent = match self.parent_of(leaf) {
            Some(p) => p,
            None => {
                proof {
                    reveal(wf_has_parent);
                    reveal(wf_root);
                    reveal(wf_one_leaf);
                    if leaf != self.root {
                        let i = choose|i: int| 0 <= i < self.nodes_view().len() && #[trigger] has_child(self.nodes_view()[i], leaf);
                        assert(has_child(self.nodes_view()[i], leaf));
                    }
                }
                return false;
            },
        };
        proof {
            reveal(wf_root);
            reveal(wf_one_leaf);
            reveal(wf_splits);
            if is_leaf_of(self.nodes_view()[self.root as int], area) {
                assert(leaf == self.root);
                assert(split_ok(self.nodes_view(), self.root, self.depth@, parent as int, self.nodes_view()[parent as int]));
            }
        }
        let sibling = match &self.nodes[parent] {
            Some(Node::Split { first, second, .. }) => if *first == leaf {
                *second
            } else {
                *first
            },
            _ => {
                return false;
            },
        };
        let ghost n0 = self.nodes_view();
        let ghost a0 = self.areas_view();
        let n_nodes = self.nodes.len();
        let n_areas = self.areas.len();
        proof {
            reveal(wf_splits);
            assert(split_ok(n0, self.root, self.depth@, parent as int, n0[parent as int]));
        }
        let mut moved: Option<Node<R>> = None;
        self.nodes.set_and_swap(sibling, &mut moved);
        self.nodes.set(parent, moved);
        self.nodes.set(leaf, None);
        self.areas.set(area, None);
        if self.active == Some(area) {
            self.active = self.first_area();
        }
        proof {
            assert(self.nodes_view() =~= n0.update(parent as int, n0[sibling as int]).update(sibling as int, None).update(leaf as int, None));
            assert(n0.len() == n_nodes && a0.len() == n_areas);
            lemma_join_wf(n0, a0, self.root, self.depth@, leaf as int, parent as int, sibling as int, area, self.nodes_view(), self.areas_view());
            lemma_count_update(a0, area as int, None);
        }
        true
    }

    /// The first area that exists.
    fn first_area(&self) -> (r: Option<usize>)
        ensures
            r == match first_some(self.areas_view()) {
                Some(i) => Some(i as usize),
                None => None,
            },
    {
        let mut i: usize = 0;
        while i < self.areas.len()
            invariant
                i <= self.areas_view().len(),
                forall|k: int| 0 <= k < i ==> self.areas_view()[k] is None,
            decreases self.areas_view().len() - i,
        {
            if self.areas[i].is_some() {
                proof {
                    let f = choose|j: int| 0 <= j < self.areas_view().len() && self.areas_view()[j] is Some
                        && forall|k: int| 0 <= k < j ==> self.areas_view()[k] is None;
                    if f < i {
                        assert(self.areas_view()[f] is None);
                    } else if f > i {
                        assert(self.areas_view()[i as int] is None);
                    }
                }
                return Some(i);
            }
            i = i + 1;
        }
        None
    }
}

impl<V, R> Screen<V, R> {
    /// The area in slot `id`, to change its editor or viewport settings.
    pub fn area_mut(&mut self, id: usize) -> (r: Option<&mut Area<V>>)
        requires
            old(self).wf(),
        ensures
            final(self).wf(),
            final(self).nodes_view() == old(self).nodes_view(),
            final(self).root_spec() == old(self).root_spec(),
            final(self).active_spec() == old(self).active_spec(),
            match r {
                Some(a) => {
                    &&& id < old(self).areas_view().len()
                    &&& old(self).areas_view()[id as int] == Some(*a)
                    &&& final(self).areas_view() == old(self).areas_view().update(id as int, Some(*final(a)))
                },
                None => {
                    &&& (id >= old(self).areas_view().len() || old(self).areas_view()[id as int] is None)
                    &&& final(self).areas_view() == old(self).areas_view()
                },
            },
    {
        proof {
            reveal(wf_leaf_area);
            reveal(wf_area_leaf);
        }
        if id < self.areas.len() {
            let slot = &mut self.areas[id];
            slot.as_mut()
        } else {
            None
        }
    }

    /// Set the ratio of split `node`; nothing happens when `node` is not a
    /// split.
    pub fn set_ratio(&mut self, node: usize, ratio: R)
        requires
            old(self).wf(),
        ensures
            final(self).wf(),
            final(self).areas_view() == old(self).areas_view(),
            final(self).root_spec() == old(self).root_spec(),
            final(self).active_spec() == old(self).active_spec(),
            match (if node < old(self).nodes_view().len() { old(self).nodes_view()[node as int] } else { None }) {
                Some(Node::Split { axis, first, second, .. }) => final(self).nodes_view() == old(self).nodes_view().update(
                    node as int,
                    Some(Node::Split { axis, ratio, first, second }),
                ),
                _ => final(self).nodes_view() == old(self).nodes_view(),
            },
    {
        if node >= self.nodes.len() {
            return;
        }
        let mut slot: Option<Node<R>> = None;
        self.nodes.set_and_swap(node, &mut slot);
        let ghost n0 = old(self).nodes_view();
        match slot {
            Some(Node::Split { axis, first, second, .. }) => {
                self.nodes.set(node, Some(Node::Split { axis, ratio, first, second }));
            },
            other => {
                self.nodes.set(node, other);
            },
        }
        proof {
            assert(self.nodes_view().len() == n0.len());
            assert forall|k: int| 0 <= k < n0.len() implies same_shape(#[trigger] n0[k], self.nodes_view()[k]) by {
                if k != node {
                    assert(self.nodes_view()[k] == n0[k]);
                }
            }
            lemma_same_shape_wf(n0, self.areas_view(), self.root, self.depth@, self.nodes_view());
        }
    }
}

/// Two slots that differ at most in a split's axis or ratio.
pub open spec fn same_shape<R>(a: Option<Node<R>>, b: Option<Node<R>>) -> bool {
    match (a, b) {
        (None, None) => true,
        (Some(Node::Leaf(x)), Some(Node::Leaf(y))) => x == y,
        (Some(Node::Split { first: f1, second: s1, .. }), Some(Node::Split { first: f2, second: s2, .. })) => f1 == f2 && s1 == s2,
        _ => false,
    }
}

/// Changing only axes and ratios keeps the tree well formed.
#[verifier::rlimit(50)]
proof fn lemma_same_shape_wf<V, R>(n0: Seq<Option<Node<R>>>, a: Seq<Option<Area<V>>>, root: usize, d: Map<usize, nat>, n1: Seq<Option<Node<R>>>)
    requires
        tree_wf(n0, a, root, d),
        n1.len() == n0.len(),
        forall|k: int| 0 <= k < n0.len() ==> same_shape(#[trigger] n0[k], n1[k]),
    ensures
        tree_wf(n1, a, root, d),
{
    reveal(wf_root);
    reveal(wf_dom);
    reveal(wf_splits);
    reveal(wf_one_parent);
    reveal(wf_has_parent);
    reveal(wf_leaf_area);
    reveal(wf_area_leaf);
    reveal(wf_one_leaf);
    assert forall|k: int, c: usize| 0 <= k < n0.len() implies (#[trigger] has_child(n1[k], c)) == has_child(n0[k], c) && (is_leaf_of(n1[k], c) == is_leaf_of(n0[k], c)) && (n1[k] is Some == n0[k] is Some) by {
        assert(same_shape(n0[k], n1[k]));
    }
    assert forall|k: int, c: usize| 0 <= k < n0.len() implies (#[trigger] is_leaf_of(n1[k], c)) == is_leaf_of(n0[k], c) by {
        assert(same_shape(n0[k], n1[k]));
    }
    assert forall|k: int| 0 <= k < n0.len() implies (#[trigger] n1[k] is Some) == (n0[k] is Some) by {
        assert(same_shape(n0[k], n1[k]));
    }
    assert forall|i: int| 0 <= i < n1.len() implies split_ok(n1, root, d, i, #[trigger] n1[i]) by {
        assert(same_shape(n0[i], n1[i]));
        assert(split_ok(n0, root, d, i, n0[i]));
        match n0[i] {
            Some(Node::Split { first, second, .. }) => {
                assert(n1[first as int] is Some == n0[first as int] is Some);
                assert(n1[second as int] is Some == n0[second as int] is Some);
            },
            _ => {},
        }
    }
    assert forall|c: int| 0 <= c < n1.len() && #[trigger] n1[c] is Some && c != root implies exists|i: int|
        0 <= i < n1.len() && #[trigger] has_child(n1[i], c as usize) by {
        assert(n0[c] is Some);
        let i = choose|i: int| 0 <= i < n0.len() && #[trigger] has_child(n0[i], c as usize);
        assert(has_child(n1[i], c as usize));
    }
    assert forall|a2: int| 0 <= a2 < a.len() && #[trigger] a[a2] is Some implies exists|i: int|
        0 <= i < n1.len() && #[trigger] is_leaf_of(n1[i], a2 as usize) by {
        let i = choose|i: int| 0 <= i < n0.len() && #[trigger] is_leaf_of(n0[i], a2 as usize);
        assert(is_leaf_of(n1[i], a2 as usize));
    }
}

/// `n1` is `n0` with the split at `parent` replaced by the node at
/// `sibling`, and the slots of `sibling` and of the removed `leaf` emptied.
pub open spec fn join_shape<R>(n0: Seq<Option<Node<R>>>, n1: Seq<Option<Node<R>>>, leaf: int, parent: int, sibling: int) -> bool {
    &&& 0 <= leaf < n0.len() && 0 <= parent < n0.len() && 0 <= sibling < n0.len()
    &&& n0[parent] matches Some(Node::Split { first, second, .. })
        && ((first == leaf && second == sibling) || (first == sibling && second == leaf))
    &&& n1 == n0.update(parent, n0[sibling]).update(sibling, None).update(leaf, None)
}

/// What `join` leaves is well formed.
#[verifier::rlimit(50)]
#[verifier::spinoff_prover]
proof fn lemma_join_wf<V, R>(
    n0: Seq<Option<Node<R>>>,
    a0: Seq<Option<Area<V>>>,
    root: usize,
    d: Map<usize, nat>,
    leaf: int,
    parent: int,
    sibling: int,
    area: usize,
    n1: Seq<Option<Node<R>>>,
    a1: Seq<Option<Area<V>>>,
)
    requires
        tree_wf(n0, a0, root, d),
        is_leaf_of(n0[leaf], area),
        has_child(n0[parent], leaf as usize),
        n0[parent] matches Some(Node::Split { first, second, .. })
            && ((first == leaf && second == sibling) || (first == sibling && second == leaf)),
        0 <= leaf < n0.len() && 0 <= parent < n0.len() && 0 <= sibling < n0.len(),
        n1 == n0.update(parent, n0[sibling]).update(sibling, None).update(leaf, None),
        a1 == a0.update(area as int, None),
        n0.len() <= usize::MAX,
        a0.len() <= usize::MAX,
    ensures
        tree_wf(n1, a1, root, d),
        join_shape(n0, n1, leaf, parent, sibling),
{
    lemma_join_facts(n0, a0, root, d, leaf, parent, sibling, area, n1, a1);
    lemma_join_nodes_wf(n0, a0, root, d, leaf, parent, sibling, area, n1, a1);
    lemma_join_parents_wf(n0, a0, root, d, leaf, parent, sibling, area, n1, a1);
    lemma_join_areas_wf(n0, a0, root, d, leaf, parent, sibling, area, n1, a1);
}

/// The facts the parts of the `join` proof share: the three slots are
/// distinct, the removed leaf and the sibling hang from `parent` only, the
/// sibling lies deeper, and every other slot is unchanged.
proof fn lemma_join_facts<V, R>(
    n0: Seq<Option<Node<R>>>,
    a0: Seq<Option<Area<V>>>,
    root: usize,
    d: Map<usize, nat>,
    leaf: int,
    parent: int,
    sibling: int,
    area: usize,
    n1: Seq<Option<Node<R>>>,
    a1: Seq<Option<Area<V>>>,
)
    requires
        tree_wf(n0, a0, root, d),
        is_leaf_of(n0[leaf], area),
        has_child(n0[parent], leaf as usize),
        n0[parent] matches Some(Node::Split { first, second, .. })
            && ((first == leaf && second == sibling) || (first == sibling && second == leaf)),
        0 <= leaf < n0.len() && 0 <= parent < n0.len() && 0 <= sibling < n0.len(),
        n1 == n0.update(parent, n0[sibling]).update(sibling, None).update(leaf, None),
        a1 == a0.update(area as int, None),
        n0.len() <= usize::MAX,
        a0.len() <= usize::MAX,
    ensures
        leaf != parent && sibling != parent && leaf != sibling,
        leaf != root && sibling != root,
        n0[sibling] is Some,
        has_child(n0[parent], sibling as usize),
        d[sibling as usize] > d[parent as usize],
        n1.len() == n0.len(),
        n1[leaf] is None && n1[sibling] is None && n1[parent] == n0[sibling],
        forall|k: int| 0 <= k < n0.len() && k != leaf && k != sibling && k != parent ==> #[trigger] n1[k] == n0[k],
        forall|i: int| 0 <= i < n0.len() && #[trigger] has_child(n0[i], leaf as usize) ==> i == parent,
        forall|i: int| 0 <= i < n0.len() && #[trigger] has_child(n0[i], sibling as usize) ==> i == parent,
        forall|i: int| 0 <= i < n0.len() && i != leaf && #[trigger] is_leaf_of(n0[i], area) ==> false,
        a0[area as int] is Some,
        area < a0.len(),
        a1.len() == a0.len(),
{
    reveal(wf_splits);
    reveal(wf_one_parent);
    reveal(wf_one_leaf);
    reveal(wf_leaf_area);
    assert(split_ok(n0, root, d, parent, n0[parent]));
    assert(has_child(n0[parent], sibling as usize));
}

#[verifier::rlimit(50)]
#[verifier::spinoff_prover]
proof fn lemma_join_nodes_wf<V, R>(
    n0: Seq<Option<Node<R>>>,
    a0: Seq<Option<Area<V>>>,
    root: usize,
    d: Map<usize, nat>,
    leaf: int,
    parent: int,
    sibling: int,
    area: usize,
    n1: Seq<Option<Node<R>>>,
    a1: Seq<Option<Area<V>>>,
)
    requires
        tree_wf(n0, a0, root, d),
        is_leaf_of(n0[leaf], area),
        has_child(n0[parent], leaf as usize),
        n0[parent] matches Some(Node::Split { first, second, .. })
            && ((first == leaf && second == sibling) || (first == sibling && second == leaf)),
        0 <= leaf < n0.len() && 0 <= parent < n0.len() && 0 <= sibling < n0.len(),
        n1 == n0.update(parent, n0[sibling]).update(sibling, None).update(leaf, None),
        a1 == a0.update(area as int, None),
        n0.len() <= usize::MAX,
        a0.len() <= usize::MAX,
    ensures
        wf_root(n1, root),
        wf_dom(n1, d),
        wf_splits(n1, root, d),
{
    lemma_join_facts(n0, a0, root, d, leaf, parent, sibling, area, n1, a1);
    reveal(wf_root);
    reveal(wf_dom);
    reveal(wf_splits);
    assert(n1[root as int] is Some) by {
        if root as int != parent {
            assert(n1[root as int] == n0[root as int]);
        }
    }
    assert forall|i: int| 0 <= i < n1.len() && #[trigger] n1[i] is Some implies d.dom().contains(i as usize) by {
        if i != parent {
            assert(n1[i] == n0[i]);
        }
    }
    assert forall|i: int| 0 <= i < n1.len() implies split_ok(n1, root, d, i, #[trigger] n1[i]) by {
        if i == parent {
            assert(split_ok(n0, root, d, sibling, n0[sibling]));
            match n0[sibling] {
                Some(Node::Split { first: c1, second: c2, .. }) => {
                    assert(has_child(n0[sibling], c1));
                    assert(has_child(n0[sibling], c2));
                    assert(c1 as int != leaf && c2 as int != leaf);
                    assert(c1 as int != sibling && c2 as int != sibling);
                    assert(c1 as int != parent && c2 as int != parent);
                    assert(n1[c1 as int] == n0[c1 as int]);
                    assert(n1[c2 as int] == n0[c2 as int]);
                },
                _ => {},
            }
        } else if i != leaf && i != sibling {
            assert(n1[i] == n0[i]);
            assert(split_ok(n0, root, d, i, n0[i]));
            match n0[i] {
                Some(Node::Split { first: c1, second: c2, .. }) => {
                    assert(has_child(n0[i], c1));
                    assert(has_child(n0[i], c2));
                    assert(c1 as int != leaf && c2 as int != leaf);
                    assert(c1 as int != sibling && c2 as int != sibling);
                    assert(c1 as int != parent ==> n1[c1 as int] == n0[c1 as int]);
                    assert(c2 as int != parent ==> n1[c2 as int] == n0[c2 as int]);
                },
                _ => {},
            }
        }
    }
}

#[verifier::rlimit(50)]
#[verifier::spinoff_prover]
proof fn lemma_join_parents_wf<V, R>(
    n0: Seq<Option<Node<R>>>,
    a0: Seq<Option<Area<V>>>,
    root: usize,
    d: Map<usize, nat>,
    leaf: int,
    parent: int,
    sibling: int,
    area: usize,
    n1: Seq<Option<Node<R>>>,
    a1: Seq<Option<Area<V>>>,
)
    requires
        tree_wf(n0, a0, root, d),
        is_leaf_of(n0[leaf], area),
        has_child(n0[parent], leaf as usize),
        n0[parent] matches Some(Node::Split { first, second, .. })
            && ((first == leaf && second == sibling) || (first == sibling && second == leaf)),
        0 <= leaf < n0.len() && 0 <= parent < n0.len() && 0 <= sibling < n0.len(),
        n1 == n0.update(parent, n0[sibling]).update(sibling, None).update(leaf, None),
        a1 == a0.update(area as int, None),
        n0.len() <= usize::MAX,
        a0.len() <= usize::MAX,
    ensures
        wf_one_parent(n1),
        wf_has_parent(n1, root),
{
    lemma_join_facts(n0, a0, root, d, leaf, parent, sibling, area, n1, a1);
    reveal(wf_one_parent);
    reveal(wf_has_parent);
    reveal(wf_splits);
    assert forall|i: int, j: int, c: usize|
        0 <= i < n1.len() && 0 <= j < n1.len() && #[trigger] has_child(n1[i], c) && #[trigger] has_child(n1[j], c) implies i == j by {
        let i0 = if i == parent { sibling } else { i };
        let j0 = if j == parent { sibling } else { j };
        assert(i != leaf && i != sibling && j != leaf && j != sibling);
        assert(n1[i] == n0[i0]);
        assert(n1[j] == n0[j0]);
        assert(i0 == j0);
    }
    assert forall|c: int| 0 <= c < n1.len() && #[trigger] n1[c] is Some && c != root implies exists|i: int|
        0 <= i < n1.len() && #[trigger] has_child(n1[i], c as usize) by {
        if c == parent {
            assert(n0[c] is Some);
            assert(exists|g: int| 0 <= g < n0.len() && #[trigger] has_child(n0[g], c as usize));
            let g = choose|g: int| 0 <= g < n0.len() && #[trigger] has_child(n0[g], c as usize);
            assert(split_ok(n0, root, d, g, n0[g]));
            assert(d[parent as usize] > d[g as usize]);
            assert(g != leaf);
            assert(g != parent);
            assert(g != sibling);
            assert(n1[g] == n0[g]);
            assert(has_child(n1[g], c as usize));
        } else {
            assert(c != leaf && c != sibling);
            assert(n1[c] == n0[c]);
            let g = choose|g: int| 0 <= g < n0.len() && #[trigger] has_child(n0[g], c as usize);
            if g == sibling {
                assert(has_child(n1[parent], c as usize));
            } else {
                assert(g != leaf);
                assert(g != parent);
                assert(n1[g] == n0[g]);
                assert(has_child(n1[g], c as usize));
            }
        }
    }
}

#[verifier::rlimit(50)]
#[verifier::spinoff_prover]
proof fn lemma_join_areas_wf<V, R>(
    n0: Seq<Option<Node<R>>>,
    a0: Seq<Option<Area<V>>>,
    root: usize,
    d: Map<usize, nat>,
    leaf: int,
    parent: int,
    sibling: int,
    area: usize,
    n1: Seq<Option<Node<R>>>,
    a1: Seq<Option<Area<V>>>,
)
    requires
        tree_wf(n0, a0, root, d),
        is_leaf_of(n0[leaf], area),
        has_child(n0[parent], leaf as usize),
        n0[parent] matches Some(Node::Split { first, second, .. })
            && ((first == leaf && second == sibling) || (first == sibling && second == leaf)),
        0 <= leaf < n0.len() && 0 <= parent < n0.len() && 0 <= sibling < n0.len(),
        n1 == n0.update(parent, n0[sibling]).update(sibling, None).update(leaf, None),
        a1 == a0.update(area as int, None),
        n0.len() <= usize::MAX,
        a0.len() <= usize::MAX,
    ensures
        wf_leaf_area(n1, a1),
        wf_area_leaf(n1, a1),
        wf_one_leaf(n1),
{
    lemma_join_facts(n0, a0, root, d, leaf, parent, sibling, area, n1, a1);
    reveal(wf_leaf_area);
    reveal(wf_area_leaf);
    reveal(wf_one_leaf);
    assert forall|i: int, a: usize| 0 <= i < n1.len() && #[trigger] is_leaf_of(n1[i], a) implies a < a1.len() && a1[a as int] is Some by {
        let i0 = if i == parent { sibling } else { i };
        assert(i != leaf && i != sibling);
        assert(n1[i] == n0[i0]);
        assert(is_leaf_of(n0[i0], a));
        assert(i0 != leaf);
        assert(a != area);
    }
    assert forall|a: int| 0 <= a < a1.len() && #[trigger] a1[a] is Some implies exists|i: int|
        0 <= i < n1.len() && #[trigger] is_leaf_of(n1[i], a as usize) by {
        assert(a != area as int);
        assert(a0[a] is Some);
        let i = choose|i: int| 0 <= i < n0.len() && #[trigger] is_leaf_of(n0[i], a as usize);
        assert(i != leaf) by {
            if i == leaf {
                assert(a as usize == area);
            }
        }
        assert(i != parent);
        if i == sibling {
            assert(is_leaf_of(n1[parent], a as usize));
        } else {
            assert(n1[i] == n0[i]);
            assert(is_leaf_of(n1[i], a as usize));
        }
    }
    assert forall|i: int, j: int, a: usize|
        0 <= i < n1.len() && 0 <= j < n1.len() && #[trigger] is_leaf_of(n1[i], a) && #[trigger] is_leaf_of(n1[j], a) implies i == j by {
        let i0 = if i == parent { sibling } else { i };
        let j0 = if j == parent { sibling } else { j };
        assert(i != leaf && i != sibling && j != leaf && j != sibling);
        assert(n1[i] == n0[i0]);
        assert(n1[j] == n0[j0]);
        assert(i0 == j0);
    }
}

/// Storing `x` fills the first empty slot (or a new one at the end) and
/// nothing else.
pub proof fn lemma_put<T>(s: Seq<Option<T>>, x: T)
    ensures
        ({
            let f = first_free(s);
            let t = put(s, x);
            &&& 0 <= f < t.len()
            &&& t.len() == (if f < s.len() { s.len() } else { s.len() + 1 })
            &&& f < s.len() ==> s[f] is None
            &&& t[f] == Some(x)
            &&& forall|k: int| 0 <= k < t.len() && k != f ==> k < s.len() && #[trigger] t[k] == s[k]
        }),
{
    lemma_first_free(s);
}

/// `n3` is `n0` with slot `leaf` turned into a split whose children are
/// the new leaves `fa` (showing `area`) and `fb` (showing `new_area`), both
/// in slots that were empty or past the end.
pub open spec fn split_shape<R>(
    n0: Seq<Option<Node<R>>>,
    n3: Seq<Option<Node<R>>>,
    leaf: int,
    fa: int,
    fb: int,
    area: usize,
    new_area: usize,
    axis: Axis,
    ratio: R,
) -> bool {
    &&& 0 <= leaf < n0.len()
    &&& n3.len() >= n0.len()
    &&& 0 <= fa < n3.len()
    &&& 0 <= fb < n3.len()
    &&& fa != fb && fa != leaf && fb != leaf
    &&& fa < n0.len() ==> n0[fa] is None
    &&& fb < n0.len() ==> n0[fb] is None
    &&& n3[leaf] == Some(Node::Split { axis, ratio, first: fa as usize, second: fb as usize })
    &&& n3[fa] == Some(Node::<R>::Leaf(area))
    &&& n3[fb] == Some(Node::<R>::Leaf(new_area))
    &&& forall|k: int| 0 <= k < n3.len() && k != leaf && k != fa && k != fb ==> k < n0.len() && #[trigger] n3[k] == n0[k]
}

/// `a1` is `a0` with `x` in slot `n`, which was empty or past the end.
pub open spec fn area_shape<V>(a0: Seq<Option<Area<V>>>, a1: Seq<Option<Area<V>>>, n: int, x: Area<V>) -> bool {
    &&& 0 <= n < a1.len()
    &&& a1.len() >= a0.len()
    &&& n < a0.len() ==> a0[n] is None
    &&& a1[n] == Some(x)
    &&& forall|k: int| 0 <= k < a1.len() && k != n ==> k < a0.len() && #[trigger] a1[k] == a0[k]
}

proof fn lemma_split_shape<V, R>(
    n0: Seq<Option<Node<R>>>,
    a0: Seq<Option<Area<V>>>,
    leaf: int,
    area: usize,
    new_area: usize,
    first: usize,
    second: usize,
    axis: Axis,
    ratio: R,
    x: Area<V>,
    n3: Seq<Option<Node<R>>>,
    a1: Seq<Option<Area<V>>>,
)
    requires
        0 <= leaf < n0.len(),
        n0[leaf] is Some,
        new_area == first_free(a0),
        a1 == put(a0, x),
        first == first_free(n0),
        second == first_free(put(n0, Node::Leaf(area))),
        n3 == put(put(n0, Node::Leaf(area)), Node::Leaf(new_area)).update(leaf, Some(Node::Split { axis, ratio, first, second })),
    ensures
        split_shape(n0, n3, leaf, first as int, second as int, area, new_area, axis, ratio),
        area_shape(a0, a1, new_area as int, x),
{
    let n1 = put(n0, Node::Leaf(area));
    let n2 = put(n1, Node::Leaf(new_area));
    lemma_put(n0, Node::Leaf(area));
    lemma_put(n1, Node::Leaf(new_area));
    lemma_put(a0, x);
    let fa = first as int;
    let fb = second as int;
    assert(fb < n0.len() ==> n0[fb] is None) by {
        if fb < n0.len() {
            assert(n1[fb] == n0[fb]);
        }
    }
    assert forall|k: int| 0 <= k < n3.len() && k != leaf && k != fa && k != fb implies k < n0.len() && #[trigger] n3[k] == n0[k] by {
        assert(n3[k] == n2[k]);
        assert(n2[k] == n1[k]);
    }
}

/// What `split` leaves is well formed.
#[verifier::rlimit(50)]
#[verifier::spinoff_prover]
proof fn lemma_split_wf<V, R>(
    n0: Seq<Option<Node<R>>>,
    a0: Seq<Option<Area<V>>>,
    root: usize,
    d0: Map<usize, nat>,
    leaf: int,
    area: usize,
    new_area: usize,
    fa: int,
    fb: int,
    axis: Axis,
    ratio: R,
    x: Area<V>,
    n3: Seq<Option<Node<R>>>,
    a1: Seq<Option<Area<V>>>,
    d1: Map<usize, nat>,
)
    requires
        tree_wf(n0, a0, root, d0),
        is_leaf_of(n0[leaf], area),
        split_shape(n0, n3, leaf, fa, fb, area, new_area, axis, ratio),
        area_shape(a0, a1, new_area as int, x),
        n3.len() <= usize::MAX,
        a1.len() <= usize::MAX,
        d1 == d0.insert(fa as usize, d0[leaf as usize] + 1).insert(fb as usize, d0[leaf as usize] + 1),
    ensures
        tree_wf(n3, a1, root, d1),
{
    lemma_split_nodes_wf(n0, a0, root, d0, leaf, area, new_area, fa, fb, axis, ratio, x, n3, a1, d1);
    lemma_split_parents_wf(n0, a0, root, d0, leaf, area, new_area, fa, fb, axis, ratio, x, n3, a1, d1);
    lemma_split_areas_wf(n0, a0, root, d0, leaf, area, new_area, fa, fb, axis, ratio, x, n3, a1, d1);
}

#[verifier::rlimit(50)]
#[verifier::spinoff_prover]
proof fn lemma_split_nodes_wf<V, R>(
    n0: Seq<Option<Node<R>>>,
    a0: Seq<Option<Area<V>>>,
    root: usize,
    d0: Map<usize, nat>,
    leaf: int,
    area: usize,
    new_area: usize,
    fa: int,
    fb: int,
    axis: Axis,
    ratio: R,
    x: Area<V>,
    n3: Seq<Option<Node<R>>>,
    a1: Seq<Option<Area<V>>>,
    d1: Map<usize, nat>,
)
    requires
        tree_wf(n0, a0, root, d0),
        is_leaf_of(n0[leaf], area),
        split_shape(n0, n3, leaf, fa, fb, area, new_area, axis, ratio),
        area_shape(a0, a1, new_area as int, x),
        n3.len() <= usize::MAX,
        a1.len() <= usize::MAX,
        d1 == d0.insert(fa as usize, d0[leaf as usize] + 1).insert(fb as usize, d0[leaf as usize] + 1),
    ensures
        wf_root(n3, root),
        wf_dom(n3, d1),
        wf_splits(n3, root, d1),
{
    reveal(wf_root);
    reveal(wf_dom);
    reveal(wf_splits);
    assert(n3[root as int] is Some) by {
        if root as int != leaf {
            assert(n3[root as int] == n0[root as int]);
        }
    }
    assert forall|i: int| 0 <= i < n3.len() && #[trigger] n3[i] is Some implies d1.dom().contains(i as usize) by {
        if i != fa && i != fb && i != leaf {
            assert(n0[i] is Some);
        }
    }
    assert forall|i: int| 0 <= i < n3.len() implies split_ok(n3, root, d1, i, #[trigger] n3[i]) by {
        if i == leaf {
            assert(fa as usize != root) by {
                if fa < n0.len() {
                    assert(n0[fa] is None);
                }
            }
            assert(fb as usize != root) by {
                if fb < n0.len() {
                    assert(n0[fb] is None);
                }
            }
        } else if i == fa || i == fb {
        } else {
            assert(n3[i] == n0[i]);
            assert(split_ok(n0, root, d0, i, n0[i]));
            match n0[i] {
                Some(Node::Split { first: c1, second: c2, .. }) => {
                    assert(c1 as int != fa && c1 as int != fb && c2 as int != fa && c2 as int != fb);
                    assert(c1 as int != leaf ==> n3[c1 as int] == n0[c1 as int]);
                    assert(c2 as int != leaf ==> n3[c2 as int] == n0[c2 as int]);
                },
                _ => {},
            }
        }
    }
}

#[verifier::rlimit(50)]
#[verifier::spinoff_prover]
proof fn lemma_split_parents_wf<V, R>(
    n0: Seq<Option<Node<R>>>,
    a0: Seq<Option<Area<V>>>,
    root: usize,
    d0: Map<usize, nat>,
    leaf: int,
    area: usize,
    new_area: usize,
    fa: int,
    fb: int,
    axis: Axis,
    ratio: R,
    x: Area<V>,
    n3: Seq<Option<Node<R>>>,
    a1: Seq<Option<Area<V>>>,
    d1: Map<usize, nat>,
)
    requires
        tree_wf(n0, a0, root, d0),
        is_leaf_of(n0[leaf], area),
        split_shape(n0, n3, leaf, fa, fb, area, new_area, axis, ratio),
        area_shape(a0, a1, new_area as int, x),
        n3.len() <= usize::MAX,
        a1.len() <= usize::MAX,
        d1 == d0.insert(fa as usize, d0[leaf as usize] + 1).insert(fb as usize, d0[leaf as usize] + 1),
    ensures
        wf_one_parent(n3),
        wf_has_parent(n3, root),
{
    reveal(wf_splits);
    reveal(wf_one_parent);
    reveal(wf_has_parent);
    assert forall|i: int, j: int, c: usize|
        0 <= i < n3.len() && 0 <= j < n3.len() && #[trigger] has_child(n3[i], c) && #[trigger] has_child(n3[j], c) implies i == j by {
        if i != leaf && j != leaf {
            assert(n3[i] == n0[i] && n3[j] == n0[j]);
        } else if i == leaf && j != leaf {
            assert(n3[j] == n0[j]);
            assert(split_ok(n0, root, d0, j, n0[j]));
        } else if j == leaf && i != leaf {
            assert(n3[i] == n0[i]);
            assert(split_ok(n0, root, d0, i, n0[i]));
        }
    }
    assert forall|c: int| 0 <= c < n3.len() && #[trigger] n3[c] is Some && c != root implies exists|i: int|
        0 <= i < n3.len() && #[trigger] has_child(n3[i], c as usize) by {
        if c == fa || c == fb {
            assert(has_child(n3[leaf], c as usize));
        } else {
            if c != leaf {
                assert(n3[c] == n0[c]);
            }
            assert(n0[c] is Some);
            let i = choose|i: int| 0 <= i < n0.len() && #[trigger] has_child(n0[i], c as usize);
            assert(i != leaf);
            assert(n3[i] == n0[i]);
            assert(has_child(n3[i], c as usize));
        }
    }
}

#[verifier::rlimit(50)]
#[verifier::spinoff_prover]
proof fn lemma_split_areas_wf<V, R>(
    n0: Seq<Option<Node<R>>>,
    a0: Seq<Option<Area<V>>>,
    root: usize,
    d0: Map<usize, nat>,
    leaf: int,
    area: usize,
    new_area: usize,
    fa: int,
    fb: int,
    axis: Axis,
    ratio: R,
    x: Area<V>,
    n3: Seq<Option<Node<R>>>,
    a1: Seq<Option<Area<V>>>,
    d1: Map<usize, nat>,
)
    requires
        tree_wf(n0, a0, root, d0),
        is_leaf_of(n0[leaf], area),
        split_shape(n0, n3, leaf, fa, fb, area, new_area, axis, ratio),
        area_shape(a0, a1, new_area as int, x),
        n3.len() <= usize::MAX,
        a1.len() <= usize::MAX,
    ensures
        wf_leaf_area(n3, a1),
        wf_area_leaf(n3, a1),
        wf_one_leaf(n3),
{
    reveal(wf_leaf_area);
    reveal(wf_area_leaf);
    reveal(wf_one_leaf);
    assert(a0[area as int] is Some);
    assert(area as int != new_area as int);
    assert forall|i: int, a: usize| 0 <= i < n3.len() && #[trigger] is_leaf_of(n3[i], a) implies a < a1.len() && a1[a as int] is Some by {
        if i == fa {
            assert(a1[area as int] == a0[area as int]);
        } else if i == fb {
        } else {
            assert(n3[i] == n0[i]);
            assert(is_leaf_of(n0[i], a));
            assert(a0[a as int] is Some);
            assert(a1[a as int] == a0[a as int]);
        }
    }
    assert forall|a: int| 0 <= a < a1.len() && #[trigger] a1[a] is Some implies exists|i: int|
        0 <= i < n3.len() && #[trigger] is_leaf_of(n3[i], a as usize) by {
        if a == new_area as int {
            assert(is_leaf_of(n3[fb], a as usize));
        } else if a == area as int {
            assert(is_leaf_of(n3[fa], a as usize));
        } else {
            assert(a1[a] == a0[a]);
            let i = choose|i: int| 0 <= i < n0.len() && #[trigger] is_leaf_of(n0[i], a as usize);
            assert(!is_leaf_of(n0[leaf], a as usize));
            assert(i != leaf);
            assert(i != fa && i != fb);
            assert(n3[i] == n0[i]);
            assert(is_leaf_of(n3[i], a as usize));
        }
    }
    assert forall|i: int, j: int, a: usize|
        0 <= i < n3.len() && 0 <= j < n3.len() && #[trigger] is_leaf_of(n3[i], a) && #[trigger] is_leaf_of(n3[j], a) implies i == j by {
        if i != fa && i != fb && i != leaf {
            assert(n3[i] == n0[i]);
        }
        if j != fa && j != fb && j != leaf {
            assert(n3[j] == n0[j]);
        }
        if i == fb || j == fb {
            if i != fb {
                assert(is_leaf_of(n0[i], new_area));
                assert(a0[new_area as int] is Some);
            }
            if j != fb {
                assert(is_leaf_of(n0[j], new_area));
                assert(a0[new_area as int] is Some);
            }
        } else if i == fa || j == fa {
            if i != fa {
                assert(is_leaf_of(n0[i], area));
            }
            if j != fa {
                assert(is_leaf_of(n0[j], area));
            }
        }
    }
}

/// The first empty slot of `v`, or its length.
fn free_slot<T>(v: &Vec<Option<T>>) -> (r: usize)
    ensures
        r == first_free(v@),
{
    let mut i: usize = 0;
    while i < v.len()
        invariant
            i <= v@.len(),
            forall|k: int| 0 <= k < i ==> v@[k] is Some,
        decreases v@.len() - i,
    {
        if v[i].is_none() {
            proof {
                assert(first_none_at(v@, i as int));
                lemma_first_free(v@);
                let f = first_free(v@);
                if f < i {
                    assert(v@[f] is Some);
                } else if f > i {
                    assert(v@[i as int] is Some);
                }
            }
            return i;
        }
        i = i + 1;
    }
    proof {
        lemma_first_free(v@);
        if first_free(v@) < v@.len() {
            assert(v@[first_free(v@)] is Some);
        }
    }
    i
}

/// Store `x` in the first empty slot of `v` (or at the end); where it went.
fn store<T>(v: &mut Vec<Option<T>>, x: T) -> (r: usize)
    ensures
        r == first_free(old(v)@),
        final(v)@ == put(old(v)@, x),
        r < final(v)@.len(),
{
    let i = free_slot(v);
    proof {
        lemma_first_free(v@);
    }
    if i < v.len() {
        v.set(i, Some(x));
        i
    } else {
        v.push(Some(x));
        i
    }
}

} // verus!
