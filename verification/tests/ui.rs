use frame_loop::ui::mutator::Mutator;
use frame_loop::ui::schema::{Container, PaneLeft, Root, Widget};
use frame_loop::ui::tree::{Color, Element, NodeState, Size};

fn single_pane() -> Root {
    Root::new(Size::new(800, 500)).with_container(Container::PaneLeft(
        PaneLeft::new(40).with_bg_color(Color::new(500, 100, 100)),
    ))
}

fn nested() -> Root {
    let inner = PaneLeft::new(20)
        .with_child(Container::Widget(Widget::new(Size::new(5, 5))))
        .with_child(Container::Widget(
            Widget::new(Size::new(6, 6)).with_color(Color::new(0, 0, 1000)),
        ));
    let left = PaneLeft::new(40)
        .with_bg_color(Color::new(500, 100, 100))
        .with_child(Container::PaneLeft(inner))
        .with_child(Container::Widget(Widget::new(Size::new(7, 7))));
    Root::new(Size::new(800, 500))
        .with_container(Container::PaneLeft(left))
        .with_container(Container::Widget(Widget::new(Size::new(8, 8))))
        .with_container(Container::PaneLeft(PaneLeft::new(10)))
}

fn nested_paths() -> Vec<Vec<usize>> {
    vec![
        vec![],
        vec![0],
        vec![0, 0],
        vec![0, 0, 0],
        vec![0, 0, 1],
        vec![0, 1],
        vec![1],
        vec![2],
    ]
}

#[test]
fn color_channels_are_cut_off_at_full_intensity() {
    assert_eq!(Color::new(500, 100, 100), Color { r: 500, g: 100, b: 100 });
    assert_eq!(Color::new(1000, 1001, 65535), Color { r: 1000, g: 1000, b: 1000 });
    assert_eq!(Color::new(0, 999, 0), Color { r: 0, g: 999, b: 0 });
}

#[test]
fn builders_keep_what_they_are_given() {
    let pane = PaneLeft::new(40);
    assert_eq!(pane.width, 40);
    assert_eq!(pane.bg_color, None);
    assert!(pane.children.is_empty());
    let pane = pane.with_bg_color(Color::new(1, 2, 3));
    assert_eq!(pane.width, 40);
    assert_eq!(pane.bg_color, Some(Color { r: 1, g: 2, b: 3 }));
    let pane = pane.with_child(Container::Widget(Widget::new(Size::new(1, 2))));
    assert_eq!(pane.bg_color, Some(Color { r: 1, g: 2, b: 3 }));
    assert_eq!(
        pane.children,
        vec![Container::Widget(Widget { size: Size { width: 1, height: 2 }, color: None })]
    );
    let root = Root::new(Size::new(800, 500));
    assert_eq!(root.size, Size { width: 800, height: 500 });
    assert!(root.containers.is_empty());
}

#[test]
fn mutator_of_a_single_pane_has_root_and_pane() {
    let schema = single_pane();
    let mutator = Mutator::from_schema(&schema);
    assert_eq!(mutator.node_count(), Some(2));
    assert_eq!(schema.node_count(), Some(2));
    assert_eq!(
        mutator.element_at(&vec![]),
        Some(Element::Root { size: Size { width: 800, height: 500 } })
    );
    assert_eq!(
        mutator.element_at(&vec![0]),
        Some(Element::PaneLeft { width: 40, bg_color: Some(Color { r: 500, g: 100, b: 100 }) })
    );
    for path in [vec![], vec![0]] {
        assert!(schema.element_at(&path).is_some());
        assert_eq!(mutator.element_at(&path), schema.element_at(&path));
    }
    assert_eq!(mutator.element_at(&vec![1]), None);
    assert_eq!(mutator.element_at(&vec![0, 0]), None);
}

#[test]
fn mutator_of_an_empty_canvas_is_one_node() {
    let schema = Root::new(Size::new(1, 1));
    let mutator = Mutator::from_schema(&schema);
    assert_eq!(schema.node_count(), Some(1));
    assert_eq!(mutator.node_count(), Some(1));
    assert_eq!(mutator.element_at(&vec![0]), None);
}

#[test]
fn mutator_is_arranged_as_its_schema() {
    let schema = nested();
    let mutator = Mutator::from_schema(&schema);
    assert_eq!(schema.node_count(), Some(8));
    assert_eq!(mutator.node_count(), schema.node_count());
    for path in nested_paths() {
        assert!(schema.element_at(&path).is_some());
        assert_eq!(mutator.element_at(&path), schema.element_at(&path));
    }
    for path in [vec![3], vec![0, 2], vec![0, 0, 2], vec![0, 0, 0, 0], vec![1, 0], vec![2, 0]] {
        assert_eq!(schema.element_at(&path), None);
        assert_eq!(mutator.element_at(&path), None);
    }
}

#[test]
fn schema_elements_by_path() {
    let schema = nested();
    assert_eq!(
        schema.element_at(&vec![0, 0]),
        Some(Element::PaneLeft { width: 20, bg_color: None })
    );
    assert_eq!(
        schema.element_at(&vec![0, 0, 1]),
        Some(Element::Widget {
            size: Size { width: 6, height: 6 },
            color: Some(Color { r: 0, g: 0, b: 1000 }),
        })
    );
    assert_eq!(
        schema.element_at(&vec![1]),
        Some(Element::Widget { size: Size { width: 8, height: 8 }, color: None })
    );
}

#[test]
fn new_mutator_is_idle_everywhere() {
    let mutator = Mutator::from_schema(&nested());
    for path in nested_paths() {
        assert_eq!(mutator.state_at(&path), Some(NodeState { hovered: false, focused: false }));
    }
    assert_eq!(mutator.state_at(&vec![9]), None);
    assert_eq!(NodeState::idle(), NodeState { hovered: false, focused: false });
}

#[test]
fn set_state_changes_the_one_node() {
    let mut mutator = Mutator::from_schema(&nested());
    let hovered = NodeState { hovered: true, focused: false };
    assert!(mutator.set_state(&vec![0, 0, 1], hovered));
    for path in nested_paths() {
        let expected = if path == vec![0, 0, 1] { hovered } else { NodeState::idle() };
        assert_eq!(mutator.state_at(&path), Some(expected));
    }
    assert!(mutator.set_state(&vec![], NodeState { hovered: false, focused: true }));
    assert_eq!(mutator.state_at(&vec![]), Some(NodeState { hovered: false, focused: true }));
    assert_eq!(mutator.state_at(&vec![0, 0, 1]), Some(hovered));
}

#[test]
fn set_state_keeps_arrangement_and_elements() {
    let schema = nested();
    let mut mutator = Mutator::from_schema(&schema);
    assert!(mutator.set_state(&vec![0, 1], NodeState { hovered: true, focused: true }));
    assert_eq!(mutator.node_count(), Some(8));
    for path in nested_paths() {
        assert_eq!(mutator.element_at(&path), schema.element_at(&path));
    }
    assert_ne!(mutator, Mutator::from_schema(&schema));
    assert!(mutator.set_state(&vec![0, 1], NodeState::idle()));
    assert_eq!(mutator, Mutator::from_schema(&schema));
}

#[test]
fn set_state_off_the_tree_changes_nothing() {
    let schema = nested();
    let mut mutator = Mutator::from_schema(&schema);
    let focused = NodeState { hovered: false, focused: true };
    assert!(!mutator.set_state(&vec![3], focused));
    assert!(!mutator.set_state(&vec![0, 0, 0, 0], focused));
    assert!(!mutator.set_state(&vec![1, 0], focused));
    assert_eq!(mutator, Mutator::from_schema(&schema));
}
