//! The mutable counterpart of a schema: one node for each node of the schema,
//! arranged as the schema is. Its nodes can change state; the arrangement and
//! the elements stay as the schema gave them.

use vstd::prelude::*;
use crate::ui::schema::{trees_of, Container, Root};
use crate::ui::tree::{
    bounded_count, element_of, forest_count, lemma_forest_count_prefix, lemma_forest_count_step,
    state_of, Element, NodeState, Tree,
};

verus! {

/// A node of a mutator.
#[derive(Debug, PartialEq, Eq)]
pub struct Node {
    element: Element,
    state: NodeState,
    children: Vec<Node>,
}

/// The mutable state of an interface.
#[derive(Debug, PartialEq, Eq)]
pub struct Mutator {
    root: Node,
}

/// The trees that a sequence of nodes stands for.
spec fn trees_of_nodes(nodes: Seq<Node>) -> Seq<Tree>
    decreases nodes,
{
    Seq::new(
        nodes.len(),
        |i: int|
            if 0 <= i < nodes.len() {
                nodes[i].view()
            } else {
                arbitrary()
            },
    )
}

impl View for Node {
    type V = Tree;

    closed spec fn view(&self) -> Tree
        decreases self,
    {
        Tree {
            element: self.element,
            state: self.state,
            children: trees_of_nodes(self.children@),
        }
    }
}

impl View for Mutator {
    type V = Tree;

    closed spec fn view(&self) -> Tree {
        self.root@
    }
}

fn nodes_from(containers: &Vec<Container>) -> (nodes: Vec<Node>)
    ensures
        trees_of_nodes(nodes@) == trees_of(containers@),
    decreases containers,
{
    let mut nodes: Vec<Node> = Vec::new();
    let mut i: usize = 0;
    while i < containers.len()
        invariant
            i <= containers.len(),
            nodes.len() == i,
            forall|j: int| 0 <= j < i ==> (#[trigger] nodes@[j])@ == containers@[j]@,
        decreases containers.len() - i,
    {
        let node = match &containers[i] {
            Container::PaneLeft(pane) => Node {
                element: Element::PaneLeft { width: pane.width, bg_color: pane.bg_color },
                state: NodeState::idle(),
                children: nodes_from(&pane.children),
            },
            Container::Widget(widget) => {
                let children: Vec<Node> = Vec::new();
                assert(trees_of_nodes(children@) =~= Seq::<Tree>::empty());
                Node {
                    element: Element::Widget { size: widget.size, color: widget.color },
                    state: NodeState::idle(),
                    children,
                }
            },
        };
        assert(node@ == containers@[i as int]@);
        nodes.push(node);
        i = i + 1;
    }
    assert(trees_of_nodes(nodes@) =~= trees_of(containers@));
    nodes
}

fn count_nodes(nodes: &Vec<Node>) -> (r: Option<usize>)
    ensures
        r == bounded_count(forest_count(trees_of_nodes(nodes@))),
    decreases nodes,
{
    let ghost trees = trees_of_nodes(nodes@);
    let mut total: usize = 0;
    let mut i: usize = 0;
    assert(trees.take(0) =~= Seq::<Tree>::empty());
    while i < nodes.len()
        invariant
            i <= nodes.len(),
            trees == trees_of_nodes(nodes@),
            total == forest_count(trees.take(i as int)),
        decreases nodes.len() - i,
    {
        proof {
            lemma_forest_count_step(trees, i as int);
            lemma_forest_count_prefix(trees, i + 1);
        }
        let below = count_nodes(&nodes[i].children);
        assert(trees[i as int] == nodes@[i as int]@);
        assert(trees[i as int].count() == 1 + forest_count(trees[i as int].children));
        let here = match below {
            Some(n) => n.checked_add(1),
            None => None,
        };
        let sum = match here {
            Some(n) => total.checked_add(n),
            None => None,
        };
        match sum {
            Some(n) => {
                total = n;
            },
            None => {
                return None;
            },
        }
        i = i + 1;
    }
    assert(trees.take(i as int) =~= trees);
    Some(total)
}

fn node_at<'a>(node: &'a Node, path: &Vec<usize>, depth: usize) -> (r: Option<&'a Node>)
    requires
        depth <= path.len(),
    ensures
        r is Some <==> node@.at(path@.skip(depth as int)) is Some,
        r matches Some(found) ==> node@.at(path@.skip(depth as int)) == Some(found@),
    decreases path.len() - depth,
{
    let ghost rest = path@.skip(depth as int);
    assert(node@.children == trees_of_nodes(node.children@));
    assert(node@.children.len() == node.children@.len());
    if depth == path.len() {
        Some(node)
    } else if path[depth] < node.children.len() {
        let at: usize = path[depth];
        assert(rest[0] == at);
        assert(rest.skip(1) =~= path@.skip(depth + 1));
        assert(node@.children[at as int] == node.children@[at as int]@);
        node_at(&node.children[at], path, depth + 1)
    } else {
        assert(rest[0] == path@[depth as int]);
        None
    }
}

fn set_state_in(node: &mut Node, path: &Vec<usize>, depth: usize, state: NodeState) -> (changed:
    bool)
    requires
        depth <= path.len(),
    ensures
        changed <==> old(node)@.at(path@.skip(depth as int)) is Some,
        final(node)@ == old(node)@.with_state_at(path@.skip(depth as int), state),
    decreases path.len() - depth,
{
    let ghost rest = path@.skip(depth as int);
    let ghost before = node@;
    assert(before.children == trees_of_nodes(node.children@));
    assert(before.children.len() == node.children@.len());
    if depth == path.len() {
        node.state = state;
        true
    } else if path[depth] < node.children.len() {
        let at: usize = path[depth];
        assert(rest[0] == at);
        assert(rest.skip(1) =~= path@.skip(depth + 1));
        assert(before.children[at as int] == node.children@[at as int]@);
        let changed = set_state_in(&mut node.children[at], path, depth + 1, state);
        assert(trees_of_nodes(node.children@) =~= before.children.update(
            at as int,
            node.children@[at as int]@,
        ));
        changed
    } else {
        assert(rest[0] == path@[depth as int]);
        false
    }
}

impl Mutator {
    /// Builds the mutator of a schema: a node for each node of the schema,
    /// with the element of that node and in the idle state, arranged as the
    /// schema is.
    pub fn from_schema(schema: &Root) -> (m: Mutator)
        ensures
            m@ == schema@,
            m@.shape() == schema@.shape(),
            m@.count() == schema@.count(),
    {
        Mutator {
            root: Node {
                element: Element::Root { size: schema.size },
                state: NodeState::idle(),
                children: nodes_from(&schema.containers),
            },
        }
    }

    /// The number of nodes, the root included; nothing if a `usize` does not
    /// hold it.
    pub fn node_count(&self) -> (r: Option<usize>)
        ensures
            r == bounded_count(self@.count()),
    {
        match count_nodes(&self.root.children) {
            Some(below) => below.checked_add(1),
            None => None,
        }
    }

    /// The element of the node that `path` leads to, where each step of the
    /// path is the position of a child and the empty path leads to the root.
    /// Nothing if the path leaves the tree.
    pub fn element_at(&self, path: &Vec<usize>) -> (r: Option<Element>)
        ensures
            r == element_of(self@.at(path@)),
    {
        assert(path@.skip(0) =~= path@);
        match node_at(&self.root, path, 0) {
            Some(node) => Some(node.element),
            None => None,
        }
    }

    /// The state of the node that `path` leads to. Nothing if the path leaves
    /// the tree.
    pub fn state_at(&self, path: &Vec<usize>) -> (r: Option<NodeState>)
        ensures
            r == state_of(self@.at(path@)),
    {
        assert(path@.skip(0) =~= path@);
        match node_at(&self.root, path, 0) {
            Some(node) => Some(node.state),
            None => None,
        }
    }

    /// Puts the node that `path` leads to into `state`. Returns whether there
    /// is such a node; if not, nothing is changed. No other node is touched,
    /// and the arrangement of the nodes stays as it is.
    pub fn set_state(&mut self, path: &Vec<usize>, state: NodeState) -> (changed: bool)
        ensures
            changed <==> old(self)@.at(path@) is Some,
            final(self)@ == old(self)@.with_state_at(path@, state),
            final(self)@.shape() == old(self)@.shape(),
            final(self)@.count() == old(self)@.count(),
    {
        assert(path@.skip(0) =~= path@);
        proof {
            crate::ui::tree::lemma_with_state_at_keeps_shape(self@, path@, state);
        }
        set_state_in(&mut self.root, path, 0, state)
    }
}

} // verus!
