use prism::input::{Event, Key, Modifiers, MouseButton};
use prism::keymap::{KeyConfig, KeyItem, Trigger, Value, CTX_MESH, CTX_OBJECT, CTX_WINDOW};

fn key(k: Key, mods: Modifiers) -> Event {
    Event::Key { key: k, pressed: true, repeat: false, mods }
}

#[test]
fn resolution_order_and_poll() {
    let k = KeyConfig::default_prism();
    let undo = k.resolve(&[CTX_MESH, CTX_WINDOW], &key(Key::Char('z'), Modifiers::ctrl()), |_| true).unwrap();
    assert_eq!(undo.op, "ed.undo");
    // Uppercase from a shifted key still matches.
    let add = k.resolve(&[CTX_OBJECT, CTX_WINDOW], &key(Key::Char('A'), Modifiers::shift()), |_| true).unwrap();
    assert_eq!(add.op, "wm.call_menu");
    assert_eq!(add.overrides()[0].0, "menu");
    // Tab means different things per context; the first context wins.
    let tab = key(Key::Tab, Modifiers::none());
    assert_eq!(k.resolve(&[CTX_MESH, CTX_OBJECT], &tab, |_| true).unwrap().overrides[0].1, Value::Enum(0));
    assert_eq!(k.resolve(&[CTX_OBJECT, CTX_MESH], &tab, |_| true).unwrap().overrides[0].1, Value::Enum(1));
    // Poll rejects: falls through to nothing.
    assert!(k.resolve(&[CTX_OBJECT], &tab, |_| false).is_none());
    // Modifiers must match exactly; releases do not fire.
    assert!(k.resolve(&[CTX_WINDOW], &key(Key::Char('z'), Modifiers::none()), |_| true).is_none());
    let release = Event::Key { key: Key::Char('z'), pressed: false, repeat: false, mods: Modifiers::ctrl() };
    assert!(k.resolve(&[CTX_WINDOW], &release, |_| true).is_none());
    let click = Event::Button { button: MouseButton::Left, pressed: true, double: false, mods: Modifiers::none() };
    assert!(Trigger::button(MouseButton::Left, Modifiers::none()).matches(&click));
}

#[test]
fn poll_refusal_falls_through_to_the_next_binding() {
    let k = KeyConfig::default_prism();
    // Ctrl+Shift+Z: redo, window-wide.
    let redo = k.resolve(&[CTX_WINDOW], &key(Key::Char('Z'), Modifiers::ctrl().union(Modifiers::shift())), |_| true).unwrap();
    assert_eq!(redo.op, "ed.redo");
    // X in object mode deletes; refused, nothing else is bound to X there.
    let x = key(Key::Char('x'), Modifiers::none());
    assert_eq!(k.resolve(&[CTX_OBJECT], &x, |_| true).unwrap().op, "object.delete");
    assert!(k.resolve(&[CTX_OBJECT], &x, |op| op != "object.delete").is_none());
    // In mesh mode X opens the delete menu; refused, the object map is next.
    let m = k.resolve(&[CTX_MESH, CTX_OBJECT], &x, |op| op != "wm.call_menu").unwrap();
    assert_eq!(m.op, "object.delete");
    // Unknown contexts are skipped.
    assert_eq!(k.resolve(&["nowhere", CTX_WINDOW], &key(Key::Home, Modifiers::none()), |_| true).unwrap().op, "view3d.frame_all");
}

#[test]
fn default_bindings_are_grouped_by_context() {
    let k = KeyConfig::default_prism();
    assert_eq!(k.maps.len(), 3);
    assert_eq!(k.map(CTX_WINDOW).unwrap().items.len(), 12);
    assert_eq!(k.map(CTX_OBJECT).unwrap().items.len(), 7);
    assert_eq!(k.map(CTX_MESH).unwrap().items.len(), 11);
    assert!(k.map("outliner").is_none());
    let tab = &k.map(CTX_OBJECT).unwrap().items[6];
    assert_eq!(tab.overrides[1].0, "toggle");
    assert_eq!(tab.overrides[1].1, Value::Bool(true));
}

#[test]
fn bind_appends_to_the_named_map() {
    let mut k = KeyConfig::new();
    k.bind("outliner", KeyItem::new(Trigger::key(Key::Delete, Modifiers::none()), "object.delete"));
    k.bind("window", KeyItem::new(Trigger::key(Key::Char('q'), Modifiers::ctrl()), "wm.quit"));
    k.bind("outliner", KeyItem::new(Trigger::key(Key::Char('a'), Modifiers::none()), "object.select_all").with("action", Value::Enum(1)));
    assert_eq!(k.maps.len(), 2);
    assert_eq!(k.maps[0].name, "outliner");
    assert_eq!(k.maps[0].items.len(), 2);
    assert_eq!(k.maps[0].items[1].op, "object.select_all");
    assert_eq!(k.maps[0].items[1].overrides(), vec![("action", Value::Enum(1))]);
    assert_eq!(k.maps[1].items[0].op, "wm.quit");
}

#[test]
fn triggers_match_exactly() {
    let t = Trigger::key(Key::Char('a'), Modifiers::none());
    assert!(t.matches(&key(Key::Char('A'), Modifiers::none())));
    assert!(!t.matches(&key(Key::Char('b'), Modifiers::none())));
    assert!(!t.matches(&key(Key::Char('a'), Modifiers::alt())));
    assert!(!t.matches(&Event::PointerMoved));
    let b = Trigger::button(MouseButton::Right, Modifiers::ctrl());
    assert!(!b.matches(&Event::Button { button: MouseButton::Left, pressed: true, double: false, mods: Modifiers::ctrl() }));
    assert!(b.matches(&Event::Button { button: MouseButton::Right, pressed: true, double: true, mods: Modifiers::ctrl() }));
    assert!(!b.matches(&key(Key::Char('a'), Modifiers::ctrl())));
}

#[test]
fn map_mut_creates_missing_maps() {
    let mut k = KeyConfig::new();
    k.map_mut("outliner").items.push(KeyItem::new(Trigger::key(Key::Delete, Modifiers::none()), "object.delete"));
    assert_eq!(k.maps.len(), 1);
    k.map_mut("outliner").name.push('!');
    assert_eq!(k.maps[0].name, "outliner!");
    assert_eq!(k.maps[0].items.len(), 1);
}
