//! The declarative description of the interface: a tree that is built once
//! and not changed afterwards.

use vstd::prelude::*;
use crate::ui::tree::{
    bounded_count, element_of, forest_count, idle_state, lemma_forest_count_prefix,
    lemma_forest_count_step, Color, Element, Size, Tree,
};

verus! {

/// A pane of fixed width along the left edge of its parent.
#[derive(Debug, PartialEq, Eq)]
pub struct PaneLeft {
    pub width: u32,
    pub bg_color: Option<Color>,
    pub children: Vec<Container>,
}

/// A plain box of a given size.
#[derive(Clone, Copy, Debug, PartialEq, Eq, Structural)]
pub struct Widget {
    pub size: Size,
    pub color: Option<Color>,
}

/// A node of the schema below the root.
#[derive(Debug, PartialEq, Eq)]
pub enum Container {
    PaneLeft(PaneLeft),
    Widget(Widget),
}

/// The root of a schema: a canvas of a given size and what lies on it.
#[derive(Debug, PartialEq, Eq)]
pub struct Root {
    pub size: Size,
    pub containers: Vec<Container>,
}

/// The trees that a sequence of containers describes.
pub open spec fn trees_of(containers: Seq<Container>) -> Seq<Tree>
    decreases containers,
{
    Seq::new(
        containers.len(),
        |i: int|
            if 0 <= i < containers.len() {
                containers[i].view()
            } else {
                arbitrary()
            },
    )
}

impl View for Container {
    type V = Tree;

    /// The tree that this container describes. No node of a schema has seen
    /// anything happen to it.
    open spec fn view(&self) -> Tree
        decreases self,
    {
        match self {
            Container::PaneLeft(pane) => Tree {
                element: Element::PaneLeft { width: pane.width, bg_color: pane.bg_color },
                state: idle_state(),
                children: trees_of(pane.children@),
            },
            Container::Widget(widget) => Tree {
                element: Element::Widget { size: widget.size, color: widget.color },
                state: idle_state(),
                children: Seq::empty(),
            },
        }
    }
}

impl View for Root {
    type V = Tree;

    /// The tree that this schema describes.
    open spec fn view(&self) -> Tree {
        Tree {
            element: Element::Root { size: self.size },
            state: idle_state(),
            children: trees_of(self.containers@),
        }
    }
}

impl Widget {
    /// A box of the given size and of no colour.
    pub fn new(size: Size) -> (r: Widget)
        ensures
            r == (Widget { size, color: None }),
    {
        Widget { size, color: None }
    }

    /// The same box in the given colour.
    pub fn with_color(self, color: Color) -> (r: Widget)
        ensures
            r == (Widget { size: self.size, color: Some(color) }),
    {
        Widget { size: self.size, color: Some(color) }
    }
}

impl PaneLeft {
    /// An empty pane of the given width, with no background.
    pub fn new(width: u32) -> (r: PaneLeft)
        ensures
            r.width == width,
            r.bg_color is None,
            r.children@ == Seq::<Container>::empty(),
    {
        PaneLeft { width, bg_color: None, children: Vec::new() }
    }

    /// The same pane with the given background colour.
    pub fn with_bg_color(self, color: Color) -> (r: PaneLeft)
        ensures
            r.width == self.width,
            r.bg_color == Some(color),
            r.children == self.children,
    {
        PaneLeft { width: self.width, bg_color: Some(color), children: self.children }
    }

    /// The same pane with `child` added behind its other children.
    pub fn with_child(self, child: Container) -> (r: PaneLeft)
        ensures
            r.width == self.width,
            r.bg_color == self.bg_color,
            r.children@ == self.children@.push(child),
    {
        let mut children = self.children;
        children.push(child);
        PaneLeft { width: self.width, bg_color: self.bg_color, children }
    }
}

impl Root {
    /// An empty canvas of the given size.
    pub fn new(size: Size) -> (r: Root)
        ensures
            r.size == size,
            r.containers@ == Seq::<Container>::empty(),
            r@ == (Tree {
                element: Element::Root { size },
                state: idle_state(),
                children: Seq::empty(),
            }),
    {
        let r = Root { size, containers: Vec::new() };
        assert(trees_of(r.containers@) =~= Seq::<Tree>::empty());
        r
    }

    /// The same schema with `container` added behind what already lies on the
    /// canvas.
    pub fn with_container(self, container: Container) -> (r: Root)
        ensures
            r.size == self.size,
            r.containers@ == self.containers@.push(container),
            r@ == (Tree {
                element: self@.element,
                state: self@.state,
                children: self@.children.push(container@),
            }),
    {
        let mut containers = self.containers;
        containers.push(container);
        let r = Root { size: self.size, containers };
        assert(trees_of(r.containers@) =~= trees_of(self.containers@).push(container@));
        r
    }

    /// The number of nodes of the schema, the root included; nothing if a
    /// `usize` does not hold it.
    pub fn node_count(&self) -> (r: Option<usize>)
        ensures
            r == bounded_count(self@.count()),
    {
        match count_containers(&self.containers) {
            Some(below) => below.checked_add(1),
            None => None,
        }
    }

    /// The element that `path` leads to, where each step of the path is the
    /// position of a child and the empty path leads to the root. Nothing if
    /// the path leaves the schema.
    pub fn element_at(&self, path: &Vec<usize>) -> (r: Option<Element>)
        ensures
            r == element_of(self@.at(path@)),
    {
        if path.len() == 0 {
            Some(Element::Root { size: self.size })
        } else if path[0] < self.containers.len() {
            assert(path@.skip(0).skip(1) =~= path@.skip(1));
            container_element_at(&self.containers[path[0]], path, 1)
        } else {
            None
        }
    }
}

fn count_containers(containers: &Vec<Container>) -> (r: Option<usize>)
    ensures
        r == bounded_count(forest_count(trees_of(containers@))),
    decreases containers,
{
    let ghost trees = trees_of(containers@);
    let mut total: usize = 0;
    let mut i: usize = 0;
    assert(trees.take(0) =~= Seq::<Tree>::empty());
    while i < containers.len()
        invariant
            i <= containers.len(),
            trees == trees_of(containers@),
            total == forest_count(trees.take(i as int)),
        decreases containers.len() - i,
    {
        proof {
            lemma_forest_count_step(trees, i as int);
            lemma_forest_count_prefix(trees, i + 1);
        }
        let below = match &containers[i] {
            Container::PaneLeft(pane) => count_containers(&pane.children),
            Container::Widget(_) => Some(0),
        };
        assert(trees[i as int] == containers@[i as int]@);
        assert(trees[i as int].count() == 1 + forest_count(trees[i as int].children));
        let here = match below {
            Some(n) => n.checked_add(1),
            None => None,
        };
        assert(here == bounded_count(trees[i as int].count()));
        let sum = match here {
            Some(n) => total.checked_add(n),
            None => None,
        };
        match sum {
            Some(n) => {
                total = n;
            },
            None => {
                return None;
            },
        }
        i = i + 1;
    }
    assert(trees.take(i as int) =~= trees);
    Some(total)
}

fn container_element_at(container: &Container, path: &Vec<usize>, depth: usize) -> (r: Option<
    Element,
>)
    requires
        depth <= path.len(),
    ensures
        r == element_of(container@.at(path@.skip(depth as int))),
    decreases path.len() - depth,
{
    let ghost rest = path@.skip(depth as int);
    match container {
        Container::PaneLeft(pane) => {
            assert(container@.children == trees_of(pane.children@));
            assert(container@.children.len() == pane.children@.len());
            if depth == path.len() {
                Some(Element::PaneLeft { width: pane.width, bg_color: pane.bg_color })
            } else if path[depth] < pane.children.len() {
                let at: usize = path[depth];
                assert(rest[0] == at);
                assert(rest.skip(1) =~= path@.skip(depth + 1));
                assert(container@.children[at as int] == pane.children@[at as int]@);
                container_element_at(&pane.children[at], path, depth + 1)
            } else {
                assert(rest[0] == path@[depth as int]);
                None
            }
        },
        Container::Widget(widget) => {
            if depth == path.len() {
                Some(Element::Widget { size: widget.size, color: widget.color })
            } else {
                None
            }
        },
    }
}

} // verus!
