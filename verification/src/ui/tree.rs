//! The mathematical model shared by a schema and its mutator: a finite tree
//! whose nodes carry an element.

use vstd::prelude::*;

verus! {

/// An extent in logical units.
#[derive(Clone, Copy, Debug, PartialEq, Eq, Structural)]
pub struct Size {
    pub width: u32,
    pub height: u32,
}

impl Size {
    pub fn new(width: u32, height: u32) -> (r: Size)
        ensures
            r == (Size { width, height }),
    {
        Size { width, height }
    }
}

/// The value of a colour channel at full intensity.
pub const FULL_INTENSITY: u16 = 1000;

/// An opaque colour. Each channel is given in thousandths of full intensity.
#[derive(Clone, Copy, Debug, PartialEq, Eq, Structural)]
pub struct Color {
    pub r: u16,
    pub g: u16,
    pub b: u16,
}

/// A channel value, cut off at full intensity.
pub open spec fn clamp_channel(value: u16) -> u16 {
    if value > FULL_INTENSITY { FULL_INTENSITY } else { value }
}

fn clamped(value: u16) -> (r: u16)
    ensures
        r == clamp_channel(value),
{
    if value > FULL_INTENSITY { FULL_INTENSITY } else { value }
}

impl Color {
    /// No channel is above full intensity.
    pub open spec fn wf(&self) -> bool {
        &&& self.r <= FULL_INTENSITY
        &&& self.g <= FULL_INTENSITY
        &&& self.b <= FULL_INTENSITY
    }

    /// The colour with the given channels, each cut off at full intensity.
    pub fn new(r: u16, g: u16, b: u16) -> (c: Color)
        ensures
            c == (Color { r: clamp_channel(r), g: clamp_channel(g), b: clamp_channel(b) }),
            c.wf(),
    {
        Color { r: clamped(r), g: clamped(g), b: clamped(b) }
    }
}

/// What a node of the interface is, apart from its children.
#[derive(Clone, Copy, Debug, PartialEq, Eq, Structural)]
pub enum Element {
    /// The canvas that everything else lies on.
    Root { size: Size },
    /// A pane of fixed width along the left edge of its parent.
    PaneLeft { width: u32, bg_color: Option<Color> },
    /// A plain box; it has no children.
    Widget { size: Size, color: Option<Color> },
}

/// The state that the loop keeps for a node while it runs.
#[derive(Clone, Copy, Debug, PartialEq, Eq, Structural)]
pub struct NodeState {
    pub hovered: bool,
    pub focused: bool,
}

impl NodeState {
    /// The state of a node that nothing has happened to.
    pub fn idle() -> (r: NodeState)
        ensures
            r == (NodeState { hovered: false, focused: false }),
    {
        NodeState { hovered: false, focused: false }
    }
}

/// The state of a node that nothing has happened to.
pub open spec fn idle_state() -> NodeState {
    NodeState { hovered: false, focused: false }
}

/// A finite tree of elements, each with its state.
pub struct Tree {
    pub element: Element,
    pub state: NodeState,
    pub children: Seq<Tree>,
}

/// A tree with nothing at its nodes: what is left of a tree when only the
/// arrangement of its nodes is looked at.
pub struct Shape {
    pub children: Seq<Shape>,
}

impl Tree {
    /// The number of nodes.
    pub open spec fn count(self) -> nat
        decreases self,
    {
        1 + forest_count(self.children)
    }

    /// The arrangement of the nodes.
    pub open spec fn shape(self) -> Shape
        decreases self,
    {
        Shape {
            children: Seq::new(
                self.children.len(),
                |i: int|
                    if 0 <= i < self.children.len() {
                        self.children[i].shape()
                    } else {
                        arbitrary()
                    },
            ),
        }
    }

    /// The same tree with `state` at the node that `path` leads to; the same
    /// tree unchanged if the path leaves it.
    pub open spec fn with_state_at(self, path: Seq<usize>, state: NodeState) -> Tree
        decreases path.len(),
    {
        if path.len() == 0 {
            Tree { element: self.element, state, children: self.children }
        } else if path[0] < self.children.len() {
            Tree {
                element: self.element,
                state: self.state,
                children: self.children.update(
                    path[0] as int,
                    self.children[path[0] as int].with_state_at(path.skip(1), state),
                ),
            }
        } else {
            self
        }
    }

    /// The subtree that `path` leads to: each step of the path is the position
    /// of a child. Nothing if the path leaves the tree.
    pub open spec fn at(self, path: Seq<usize>) -> Option<Tree>
        decreases path.len(),
    {
        if path.len() == 0 {
            Some(self)
        } else if path[0] < self.children.len() {
            self.children[path[0] as int].at(path.skip(1))
        } else {
            None
        }
    }
}

/// The number of nodes in a sequence of trees.
pub open spec fn forest_count(trees: Seq<Tree>) -> nat
    decreases trees,
{
    if trees.len() == 0 {
        0
    } else {
        trees.last().count() + forest_count(trees.drop_last())
    }
}

/// A count as a `usize`, if a `usize` holds it.
pub open spec fn bounded_count(count: nat) -> Option<usize> {
    if count <= usize::MAX { Some(count as usize) } else { None }
}

/// The element at the root of a subtree, if there is a subtree.
pub open spec fn element_of(subtree: Option<Tree>) -> Option<Element> {
    match subtree {
        Some(tree) => Some(tree.element),
        None => None,
    }
}

/// The state at the root of a subtree, if there is a subtree.
pub open spec fn state_of(subtree: Option<Tree>) -> Option<NodeState> {
    match subtree {
        Some(tree) => Some(tree.state),
        None => None,
    }
}

/// The number of nodes in the first `n` of `trees` is at most the number of
/// nodes in all of them.
pub proof fn lemma_forest_count_prefix(trees: Seq<Tree>, n: int)
    requires
        0 <= n <= trees.len(),
    ensures
        forest_count(trees.take(n)) <= forest_count(trees),
    decreases trees.len(),
{
    if n == trees.len() {
        assert(trees.take(n) =~= trees);
    } else {
        assert(trees.drop_last().take(n) =~= trees.take(n));
        lemma_forest_count_prefix(trees.drop_last(), n);
    }
}

/// Taking one more tree into a prefix adds the nodes of that tree.
pub proof fn lemma_forest_count_step(trees: Seq<Tree>, n: int)
    requires
        0 <= n < trees.len(),
    ensures
        forest_count(trees.take(n + 1)) == forest_count(trees.take(n)) + trees[n].count(),
{
    assert(trees.take(n + 1).drop_last() =~= trees.take(n));
    assert(trees.take(n + 1).last() == trees[n]);
}

/// Two sequences of trees that agree in shape, tree by tree, have the same
/// number of nodes.
pub proof fn lemma_forest_same_shape_same_count(a: Seq<Tree>, b: Seq<Tree>)
    requires
        a.len() == b.len(),
        forall|i: int| 0 <= i < a.len() ==> a[i].shape() == b[i].shape(),
    ensures
        forest_count(a) == forest_count(b),
    decreases a,
{
    if a.len() > 0 {
        lemma_same_shape_same_count(a.last(), b.last());
        lemma_forest_same_shape_same_count(a.drop_last(), b.drop_last());
    }
}

/// Trees of the same shape have the same number of nodes.
pub proof fn lemma_same_shape_same_count(a: Tree, b: Tree)
    requires
        a.shape() == b.shape(),
    ensures
        a.count() == b.count(),
    decreases a,
{
    assert(a.children.len() == a.shape().children.len());
    assert(b.children.len() == b.shape().children.len());
    assert forall|i: int| 0 <= i < a.children.len() implies a.children[i].shape()
        == b.children[i].shape() by {
        assert(a.shape().children[i] == a.children[i].shape());
        assert(b.shape().children[i] == b.children[i].shape());
    }
    lemma_forest_same_shape_same_count(a.children, b.children);
}

/// Setting the state of a node changes neither the shape of the tree nor the
/// element of any node, and so not the number of nodes either.
pub proof fn lemma_with_state_at_keeps_shape(tree: Tree, path: Seq<usize>, state: NodeState)
    ensures
        tree.with_state_at(path, state).shape() == tree.shape(),
        tree.with_state_at(path, state).count() == tree.count(),
        tree.with_state_at(path, state).element == tree.element,
    decreases path.len(),
{
    let after = tree.with_state_at(path, state);
    if path.len() > 0 && path[0] < tree.children.len() {
        let at = path[0] as int;
        lemma_with_state_at_keeps_shape(tree.children[at], path.skip(1), state);
        assert(after.shape().children =~= tree.shape().children);
    } else {
        assert(after.shape().children =~= tree.shape().children);
    }
    lemma_same_shape_same_count(after, tree);
}

/// After the state at a path has been set, that path leads to a node in that
/// state, if it leads to a node at all.
pub proof fn lemma_with_state_at_reads_back(tree: Tree, path: Seq<usize>, state: NodeState)
    ensures
        tree.with_state_at(path, state).at(path) is Some <==> tree.at(path) is Some,
        tree.at(path) is Some ==> state_of(tree.with_state_at(path, state).at(path)) == Some(
            state,
        ),
    decreases path.len(),
{
    if path.len() > 0 && path[0] < tree.children.len() {
        lemma_with_state_at_reads_back(tree.children[path[0] as int], path.skip(1), state);
    }
}

} // verus!
