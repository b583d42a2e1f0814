use prism::context::UiRequest;
use prism::keymap::{key_contexts, Value};
use prism::operator::OpFlags;
use prism::registry::{OpInfo, Registry};
use prism::ui::popups::{menu, popup_step, trim, Popup, PopupInput};
use prism::ui::screen::Axis;
use prism::ui::shell::{frame_cursor, frame_step, pointer_step, route_requests, FrameInput, PointerInput, PointerState, ShellModel, ViewEffect};
use prism::ui::state::CursorIcon;

fn quiet() -> PopupInput {
    PopupInput {
        escape: false,
        outside_press: false,
        clicked: None,
        arrow_down: false,
        arrow_up: false,
        edited: None,
        committed: false,
        confirm: false,
        cancel: false,
    }
}

fn entries() -> Vec<(String, String)> {
    (0..15).map(|i| (format!("op.{i}"), format!("Op {i}"))).collect()
}

fn idle() -> PointerInput {
    PointerInput {
        pressed: false,
        down: false,
        released: false,
        press_claimed: false,
        widget_popup_open: false,
        press_in_widget_popup: false,
        shell_popup_open: false,
        widget_active: false,
        pointer_in_window: true,
        focus_follows_mouse: false,
        sep_at_press: None,
        sep_at_pointer: None,
        area_at_press: None,
        area_at_pointer: None,
    }
}

#[test]
fn palette_navigation() {
    let e = entries();
    let p: Popup<()> = Popup::Palette { query: "op".into(), selected: 0 };
    let (p, cmds, close) = popup_step(p, PopupInput { arrow_down: true, ..quiet() }, &e);
    assert!(cmds.is_empty() && !close);
    assert!(matches!(p, Popup::Palette { selected: 1, .. }));
    let (p, _, _) = popup_step(p, PopupInput { arrow_up: true, ..quiet() }, &e);
    let (p, _, _) = popup_step(p, PopupInput { arrow_up: true, ..quiet() }, &e);
    assert!(matches!(p, Popup::Palette { selected: 0, .. }), "up stops at the first entry");
    let p = Popup::<()>::Palette { query: "op".into(), selected: 14 };
    let (p, _, _) = popup_step(p, PopupInput { arrow_down: true, ..quiet() }, &e);
    assert!(matches!(p, Popup::Palette { selected: 14, .. }), "down stops at the last entry");
    let (p, _, _) = popup_step(p, PopupInput { edited: Some("op.1".into()), ..quiet() }, &e);
    match &p {
        Popup::Palette { query, selected } => assert_eq!((query.as_str(), *selected), ("op.1", 0)),
        _ => panic!("still the palette"),
    }
    let (_, cmds, close) = popup_step(p, PopupInput { committed: true, ..quiet() }, &e);
    assert!(close);
    assert_eq!(cmds, vec![("op.0".to_owned(), Vec::new())]);
    let p = Popup::<()>::Palette { query: String::new(), selected: 0 };
    let (_, cmds, _) = popup_step(p, PopupInput { clicked: Some(12), ..quiet() }, &e);
    assert!(cmds.is_empty(), "only the first eleven entries show");
    let p = Popup::<()>::Palette { query: String::new(), selected: 0 };
    let (_, cmds, close) = popup_step(p, PopupInput { clicked: Some(3), ..quiet() }, &e);
    assert!(close);
    assert_eq!(cmds[0].0, "op.3");
    let p = Popup::<()>::Palette { query: String::new(), selected: 0 };
    let (_, cmds, close) = popup_step(p, PopupInput { committed: true, ..quiet() }, &[]);
    assert!(cmds.is_empty() && !close, "Enter with nothing listed runs nothing");
}

#[test]
fn popups_close_and_run() {
    let e = entries();
    let m = menu("add", (1, 2)).unwrap();
    let (m, cmds, close) = popup_step(m, PopupInput { clicked: Some(4), ..quiet() }, &e);
    assert!(close);
    assert_eq!(cmds, vec![("object.add_primitive".to_owned(), vec![("kind".to_owned(), Value::Enum(4)), ("segments".to_owned(), Value::I64(10))])]);
    let (m, cmds, close) = popup_step(m, PopupInput { clicked: Some(9), ..quiet() }, &e);
    assert!(cmds.is_empty() && !close);
    let (_, _, close) = popup_step(m, PopupInput { escape: true, ..quiet() }, &e);
    assert!(close);
    let p = Popup::<()>::Path { op: "wm.save_as".into(), save: true, text: "  ".into() };
    let (p, cmds, close) = popup_step(p, PopupInput { committed: true, ..quiet() }, &e);
    assert!(cmds.is_empty() && !close, "a blank path runs nothing");
    let (p, cmds, close) = popup_step(p, PopupInput { edited: Some(" /tmp/a.prism \n".into()), confirm: true, ..quiet() }, &e);
    assert!(close);
    assert_eq!(cmds, vec![("wm.save_as".to_owned(), vec![("path".to_owned(), Value::Str("/tmp/a.prism".into()))])]);
    let (_, cmds, close) = popup_step(p, PopupInput { cancel: true, ..quiet() }, &e);
    assert!(cmds.is_empty() && close);
    let p = Popup::<()>::Palette { query: String::new(), selected: 0 };
    let (_, _, close) = popup_step(p, PopupInput { outside_press: true, ..quiet() }, &e);
    assert!(close);
}

#[test]
fn trimming() {
    assert_eq!(trim("  a b \t"), "a b");
    assert_eq!(trim("\u{3000}x\u{2029}"), "x");
    assert_eq!(trim("   "), "");
    assert_eq!(trim(""), "");
}

#[test]
fn key_context_chain() {
    assert_eq!(key_contexts(Some("outliner"), false), vec!["outliner", "object", "window"]);
    assert_eq!(key_contexts(None, true), vec!["editor", "mesh", "window"]);
}

#[test]
fn separators_and_focus() {
    let s = PointerState { drag_sep: None, active: Some(0) };
    // A press on a separator grabs it; focus stays.
    let (s, o) = pointer_step(s, PointerInput { pressed: true, down: true, sep_at_press: Some(2), area_at_press: Some(1), ..idle() });
    assert_eq!(s, PointerState { drag_sep: Some(2), active: Some(0) });
    assert!(o.grabbed && o.drag.is_none());
    assert_eq!(o.hover_sep, Some(2));
    let (s, o) = pointer_step(s, PointerInput { down: true, ..idle() });
    assert_eq!(o.drag, Some(2));
    let (s, o) = pointer_step(s, PointerInput { released: true, sep_at_pointer: Some(2), ..idle() });
    assert_eq!(s.drag_sep, None);
    assert_eq!(o.drag, None);
    assert_eq!(o.hover_sep, Some(2));
    // A claimed press neither grabs nor hovers through a popup.
    let (s2, o) = pointer_step(s, PointerInput { pressed: true, press_claimed: true, sep_at_press: Some(2), area_at_press: Some(1), ..idle() });
    assert!(!o.grabbed);
    assert_eq!(s2.active, Some(1), "the press focuses the area under it");
    let (_, o) = pointer_step(s, PointerInput { shell_popup_open: true, sep_at_pointer: Some(2), ..idle() });
    assert_eq!(o.hover_sep, None);
    // A press inside a dropdown leaves focus alone; focus can follow the mouse.
    let (s3, _) = pointer_step(s, PointerInput { pressed: true, widget_popup_open: true, press_in_widget_popup: true, area_at_press: Some(3), ..idle() });
    assert_eq!(s3.active, Some(0));
    let (s4, _) = pointer_step(s, PointerInput { focus_follows_mouse: true, area_at_pointer: Some(5), ..idle() });
    assert_eq!(s4.active, Some(5));
    let (s5, _) = pointer_step(s, PointerInput { focus_follows_mouse: true, shell_popup_open: true, area_at_pointer: Some(5), ..idle() });
    assert_eq!(s5.active, Some(0));
}

#[test]
fn cursors() {
    assert_eq!(frame_cursor(CursorIcon::NsResize, Some(Axis::Horizontal), CursorIcon::Pointer), CursorIcon::NsResize);
    assert_eq!(frame_cursor(CursorIcon::Default, Some(Axis::Horizontal), CursorIcon::Pointer), CursorIcon::EwResize);
    assert_eq!(frame_cursor(CursorIcon::Default, Some(Axis::Vertical), CursorIcon::Pointer), CursorIcon::NsResize);
    assert_eq!(frame_cursor(CursorIcon::Default, None, CursorIcon::Pointer), CursorIcon::Pointer);
}

#[test]
fn requests_reach_the_shell() {
    let reqs = vec![
        UiRequest::Palette,
        UiRequest::ViewShading { wire: true },
        UiRequest::Undo,
        UiRequest::Menu("add".into()),
        UiRequest::ViewToggleGrid,
    ];
    let (popup, quit, view) = route_requests::<(i32, i32)>(None, reqs, (7, 8), None);
    assert!(matches!(popup, Some(Popup::Menu { pos: (7, 8), .. })), "the last popup request wins");
    assert!(!quit);
    assert_eq!(view, vec![ViewEffect::Shading { wire: true }, ViewEffect::ToggleGrid]);
    let (popup, quit, _) = route_requests(Some(Popup::<()>::Palette { query: "x".into(), selected: 0 }), vec![UiRequest::Menu("nope".into()), UiRequest::Quit], (), None);
    assert!(popup.is_none(), "an unknown menu closes the popup");
    assert!(quit);
    let (popup, _, view) = route_requests(Some(Popup::<()>::Palette { query: "x".into(), selected: 2 }), vec![UiRequest::ViewFrame { selected: true }], (), None);
    assert!(matches!(popup, Some(Popup::Palette { selected: 2, .. })), "no popup request keeps the popup");
    assert_eq!(view, vec![ViewEffect::Frame { selected: true }]);
}

#[test]
fn one_rebuild() {
    let s = ShellModel::<()> { pointer: PointerState { drag_sep: None, active: Some(0) }, popup: None };
    let input = FrameInput {
        pointer: PointerInput { pressed: true, area_at_press: Some(1), ..idle() },
        requests: vec![UiRequest::PathDialog { op: "wm.open".into(), save: false, suggest: None }],
        at: (),
        doc_path: Some("/tmp/a.prism"),
    };
    let (s, out) = frame_step(s, input);
    assert_eq!(s.pointer.active, Some(1));
    assert!(out.rebuild && !out.quit);
    match s.popup {
        Some(Popup::Path { text, op, save }) => assert_eq!((text.as_str(), op.as_str(), save), ("/tmp/a.prism", "wm.open", false)),
        _ => panic!("the path dialog"),
    }
    let s = ShellModel::<()> { pointer: PointerState { drag_sep: None, active: None }, popup: None };
    let (_, out) = frame_step(s, FrameInput { pointer: idle(), requests: Vec::new(), at: (), doc_path: None });
    assert!(!out.rebuild);
}

#[test]
fn ids_match_regardless_of_case() {
    let mut r = Registry::new();
    r.register_info(OpInfo { id: "Custom.Bake", label: "Zzz", flags: OpFlags(1) });
    let hits: Vec<&str> = r.search("custom.bake").iter().map(|o| o.id).collect();
    assert_eq!(hits, vec!["Custom.Bake"]);
    let hits: Vec<&str> = r.search("CUSTOM").iter().map(|o| o.id).collect();
    assert_eq!(hits, vec!["Custom.Bake"]);
}
