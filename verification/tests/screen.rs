//! The split tree. Pixel layout is the host's, so these check the tree.

use prism::ui::editors::EditorKind;
use prism::ui::screen::{Axis, Node, Screen};

type S = Screen<(), f64>;

fn leaves(s: &S) -> Vec<usize> {
    let mut out = Vec::new();
    let mut stack = vec![s.root()];
    while let Some(n) = stack.pop() {
        match s.node(n).unwrap() {
            Node::Leaf(a) => out.push(*a),
            Node::Split { first, second, .. } => {
                stack.push(*second);
                stack.push(*first);
            }
        }
    }
    out
}

#[test]
fn single_area_fills_window() {
    let mut s: S = Screen::new(EditorKind::Empty, ());
    assert_eq!(s.area_count(), 1);
    assert_eq!(leaves(&s), vec![0]);
    assert!(!s.join(0), "cannot remove the last area");
    assert_eq!(s.area_count(), 1);
}

#[test]
fn split_join_and_drag() {
    let mut s: S = Screen::new(EditorKind::Empty, ());
    let right = s.split(0, Axis::Horizontal, 0.6, EditorKind::Preferences, ()).unwrap();
    assert_eq!(s.area_count(), 2);
    assert_eq!(leaves(&s), vec![0, right]);
    assert_eq!(s.area(right).unwrap().editor, EditorKind::Preferences);

    // Dragging the separator sets the split's ratio.
    let root = s.root();
    s.set_ratio(root, 0.3);
    match s.node(root).unwrap() {
        Node::Split { ratio, axis, .. } => {
            assert_eq!(*ratio, 0.3);
            assert_eq!(*axis, Axis::Horizontal);
        }
        Node::Leaf(_) => panic!("the root is a split"),
    }

    // Nested split of the right area, then join it away again.
    let bottom = s.split(right, Axis::Vertical, 0.5, EditorKind::Gallery, ()).unwrap();
    assert_eq!(leaves(&s), vec![0, right, bottom]);
    s.set_active(Some(bottom));
    assert!(s.join(bottom));
    assert_eq!(s.area_count(), 2);
    assert_ne!(s.active(), Some(bottom));
    assert_eq!(leaves(&s), vec![0, right]);
    assert!(s.join(right));
    assert_eq!(leaves(&s), vec![0], "sibling took the whole window back");
    assert!(matches!(s.node(s.root()), Some(Node::Leaf(0))));
}

#[test]
fn freed_slots_are_reused() {
    let mut s: S = Screen::new(EditorKind::Viewport, ());
    let a = s.split(0, Axis::Horizontal, 0.5, EditorKind::Gallery, ()).unwrap();
    let nodes = s.node_count();
    assert!(s.join(a));
    let b = s.split(0, Axis::Vertical, 0.5, EditorKind::Empty, ()).unwrap();
    assert_eq!(b, a, "the emptied area slot is taken again");
    assert_eq!(s.node_count(), nodes, "and so are the node slots");
    assert!(s.split(42, Axis::Vertical, 0.5, EditorKind::Empty, ()).is_none());
    assert!(!s.join(42));
}

#[test]
fn joining_the_active_area_moves_focus() {
    let mut s: S = Screen::new(EditorKind::Viewport, ());
    let a = s.split(0, Axis::Horizontal, 0.5, EditorKind::Gallery, ()).unwrap();
    s.set_active(Some(0));
    assert!(s.join(0));
    assert_eq!(s.active(), Some(a));
    s.area_mut(a).unwrap().editor = EditorKind::Preferences;
    assert_eq!(s.area(a).unwrap().editor, EditorKind::Preferences);
    assert!(s.area(0).is_none());
}
