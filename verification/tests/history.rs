use prism::history::{History, UndoStep};

fn step(before: i32, after: i32, label: &str) -> UndoStep<i32, u8> {
    UndoStep { before, after, label: label.to_owned(), op_id: format!("test.{label}"), props: Some(1) }
}

#[test]
fn push_undo_redo_round_trip() {
    let mut h: History<i32, u8> = History::new();
    assert!(h.is_empty());
    assert_eq!(h.revision(), 0);
    assert_eq!(h.undo(), None);
    assert_eq!(h.redo(), None);
    h.push(step(0, 1, "a"));
    h.push(step(1, 2, "b"));
    assert_eq!((h.len(), h.cursor()), (2, 2));
    let r2 = h.revision();
    assert_eq!(h.undo(), Some(1));
    assert_eq!(h.undo(), Some(0));
    assert_eq!(h.undo(), None);
    assert!(!h.can_undo());
    assert!(h.can_redo());
    assert_eq!(h.revision(), 0);
    assert_eq!(h.redo(), Some(1));
    assert_eq!(h.redo(), Some(2));
    assert_eq!(h.redo(), None);
    assert_eq!(h.revision(), r2);
    assert_eq!(h.last().unwrap().label, "b");
}

#[test]
fn pushing_after_undo_drops_the_redo_tail() {
    let mut h: History<i32, u8> = History::new();
    h.push(step(0, 1, "a"));
    h.push(step(1, 2, "b"));
    let r2 = h.revision();
    h.undo();
    h.push(step(1, 5, "c"));
    assert_eq!(h.len(), 2);
    assert!(!h.can_redo());
    assert_ne!(h.revision(), r2, "a new step is a new revision");
    let (labels, cursor) = h.labels();
    assert_eq!(labels, vec!["a", "c"]);
    assert_eq!(cursor, 2);
    h.clear();
    assert_eq!((h.len(), h.cursor()), (0, 0));
    assert!(h.last().is_none());
}

#[test]
fn the_last_step_can_be_edited() {
    let mut h: History<i32, u8> = History::new();
    assert!(h.last_props_mut().is_none());
    h.push(step(0, 1, "a"));
    *h.last_props_mut().unwrap() = 9;
    assert_eq!(h.last().unwrap().props, Some(9));
    h.set_last(7, None);
    assert_eq!(h.last().unwrap().after, 7);
    assert!(h.last_props_mut().is_none());
    h.undo();
    assert_eq!(h.redo(), Some(7));
}
