use prism::builtin::io::{sibling, ExportObj, ImportObj};
use prism::builtin::register_all;
use prism::builtin::transform::{control, flow_of_step, starts_drag, step, Axis, Control, Step};
use prism::builtin::view3d::{FrameAll, FrameSelected, Gizmo, GizmoCycle, GizmoKind, Shading, ToggleGrid};
use prism::builtin::wm::{CallMenu, New, Open, Palette, Quit, Redo, Save, SaveAs, Undo};
use prism::builtin::{mesh, object, transform};
use prism::context::{Ctx, Flow, Outcome, UiRequest};
use prism::input::{Event, Key, Modifiers, MouseButton};
use prism::operator::{OpError, OpFlags, Operator};
use prism::registry::Registry;

fn key(k: Key) -> Event {
    Event::Key { key: k, pressed: true, repeat: false, mods: Modifiers::none() }
}

fn click(b: MouseButton, pressed: bool) -> Event {
    Event::Button { button: b, pressed, double: false, mods: Modifiers::none() }
}

#[test]
fn every_builtin_is_registered_once() {
    let mut r = Registry::new();
    register_all(&mut r);
    assert_eq!(r.len(), 9 + 9 + 8 + 6);
    for id in ["ed.undo", "wm.palette", "object.mode_set", "mesh.extrude", "view3d.gizmo_cycle"] {
        assert!(r.get(id).is_some(), "{id}");
    }
    assert!(r.get("transform.translate").is_none(), "not among the shipped set");
    register_all(&mut r);
    assert_eq!(r.len(), 32, "registering again adds nothing");
    assert_eq!(r.get("object.select").unwrap().flags, OpFlags(2));
    assert_eq!(r.get("wm.call_menu").unwrap().flags, OpFlags(0));
    assert_eq!(r.get("mesh.extrude").unwrap().label, "Extrude Faces");
    assert_eq!(r.get("mesh.extrude").unwrap().category(), "mesh");
    transform::register(&mut r);
    assert_eq!(r.get("transform.rotate").unwrap().flags, OpFlags(7));
}

#[test]
fn operator_identities() {
    assert_eq!(object::Translate::info().id, "object.translate");
    assert_eq!(transform::Translate::info().label, "Move");
    assert!(transform::Scale::info().flags.contains(OpFlags::blocking()));
    assert!(!object::Select::info().flags.contains(OpFlags::register()));
    assert!(mesh::Delete::info().flags.contains(OpFlags::default_flags()));
    assert_eq!(OpFlags::register() | OpFlags::undo(), OpFlags::default_flags());
}

#[test]
fn palette_search_ranks_labels_then_ids() {
    let mut r = Registry::new();
    register_all(&mut r);
    let hits: Vec<&str> = r.search("ext").iter().map(|o| o.id).collect();
    assert_eq!(hits[0], "mesh.extrude");
    // Only listed operators show: the menu caller is not listed.
    assert!(r.search("").iter().all(|o| o.flags.contains(OpFlags::register())));
    assert!(r.search("").iter().all(|o| o.id != "wm.call_menu"));
    // Case and spaces do not matter.
    assert_eq!(r.search("FRAME sel")[0].id, "view3d.frame_selected");
    assert!(r.search("zzzz").is_empty());
}

#[test]
fn window_operators_ask_the_ui() {
    let mut ctx = Ctx::new();
    assert_eq!(Undo::exec(&mut ctx), Ok(Outcome::Finished));
    assert_eq!(Redo::exec(&mut ctx), Ok(Outcome::Finished));
    assert_eq!(Quit::exec(&mut ctx), Ok(Outcome::Finished));
    assert_eq!(Palette::exec(&mut ctx), Ok(Outcome::Finished));
    assert_eq!(New::exec(&mut ctx), Ok(Outcome::Finished));
    assert_eq!(ctx.requests, vec![UiRequest::Undo, UiRequest::Redo, UiRequest::Quit, UiRequest::Palette, UiRequest::HistoryClear]);

    let mut ctx = Ctx::new();
    assert_eq!(CallMenu::exec(&mut ctx, ""), Err(OpError::Failed("no menu named".into())));
    assert!(ctx.requests.is_empty());
    assert_eq!(CallMenu::exec(&mut ctx, "add"), Ok(Outcome::Finished));
    assert_eq!(ctx.requests, vec![UiRequest::Menu("add".into())]);
}

#[test]
fn file_operators_ask_for_a_path_only_when_needed() {
    let mut ctx = Ctx::new();
    assert_eq!(Save::target(&mut ctx, "a.prism", Some("b.prism")).as_deref(), Some("a.prism"));
    assert_eq!(Save::target(&mut ctx, "", Some("b.prism")).as_deref(), Some("b.prism"));
    assert!(ctx.requests.is_empty());
    assert_eq!(Save::target(&mut ctx, "", None), None);
    assert_eq!(SaveAs::target(&mut ctx, ""), None);
    assert_eq!(Open::target(&mut ctx, ""), None);
    assert_eq!(Open::target(&mut ctx, "c.prism").as_deref(), Some("c.prism"));
    let ask = |op: &str, save: bool| UiRequest::PathDialog { op: op.into(), save, suggest: None };
    assert_eq!(ctx.requests, vec![ask("wm.save", true), ask("wm.save_as", true), ask("wm.open", false)]);
    assert_eq!(Save::finish(&mut ctx, "a.prism"), Ok(Outcome::Finished));
    assert_eq!(ctx.report.as_deref(), Some("Saved a.prism"));
    let mut ctx = Ctx::new();
    assert_eq!(Open::finish(&mut ctx, "c.prism"), Ok(Outcome::Finished));
    assert_eq!(ctx.requests, vec![UiRequest::HistoryClear]);
    assert_eq!(ctx.report.as_deref(), Some("Opened c.prism"));
}

#[test]
fn exchange_files_are_offered_next_to_the_document() {
    assert_eq!(sibling(Some("/tmp/scene.prism"), "obj"), "/tmp/scene.obj");
    assert_eq!(sibling(Some("/tmp/scene"), "obj"), "/tmp/scene.obj");
    assert_eq!(sibling(None, "obj"), "untitled.obj");
    let mut ctx = Ctx::new();
    assert_eq!(ImportObj::target(&mut ctx, "", Some("/work/cube.prism")), None);
    assert_eq!(ExportObj::target(&mut ctx, "", None), None);
    assert_eq!(ExportObj::target(&mut ctx, "out.obj", None).as_deref(), Some("out.obj"));
    assert_eq!(
        ctx.requests,
        vec![
            UiRequest::PathDialog { op: "wm.import_obj".into(), save: false, suggest: Some("/work/cube.obj".into()) },
            UiRequest::PathDialog { op: "wm.export_obj".into(), save: true, suggest: Some("untitled.obj".into()) },
        ]
    );
}

#[test]
fn viewport_operators_ask_the_viewport() {
    let mut ctx = Ctx::new();
    FrameAll::exec(&mut ctx).unwrap();
    FrameSelected::exec(&mut ctx).unwrap();
    Shading::exec(&mut ctx, true).unwrap();
    ToggleGrid::exec(&mut ctx).unwrap();
    Gizmo::exec(&mut ctx, GizmoKind::Scale).unwrap();
    GizmoCycle::exec(&mut ctx).unwrap();
    assert_eq!(
        ctx.requests,
        vec![
            UiRequest::ViewFrame { selected: false },
            UiRequest::ViewFrame { selected: true },
            UiRequest::ViewShading { wire: true },
            UiRequest::ViewToggleGrid,
            UiRequest::GizmoSet(2),
            UiRequest::GizmoCycle,
        ]
    );
    assert_eq!(GizmoKind::Rotate.index(), 1);
}

#[test]
fn transform_controls() {
    assert_eq!(control(&Event::PointerMoved, false), Control::Move);
    // Started by a key: the next click confirms; started by a drag: the release.
    assert_eq!(control(&click(MouseButton::Left, true), false), Control::Confirm);
    assert_eq!(control(&click(MouseButton::Left, true), true), Control::Ignore);
    assert_eq!(control(&click(MouseButton::Left, false), true), Control::Confirm);
    assert_eq!(control(&click(MouseButton::Right, true), false), Control::Cancel);
    assert_eq!(control(&key(Key::Escape), false), Control::Cancel);
    assert_eq!(control(&key(Key::Enter), false), Control::Confirm);
    assert_eq!(control(&key(Key::Space), false), Control::Confirm);
    assert_eq!(control(&key(Key::Char('X')), false), Control::Axis(Axis::X));
    assert_eq!(control(&key(Key::Char('q')), false), Control::Ignore);
    assert!(starts_drag(&click(MouseButton::Left, true)));
    assert!(!starts_drag(&click(MouseButton::Left, false)));
    assert!(!starts_drag(&key(Key::Char('g'))));
    assert_eq!(Axis::Y.tag(), "  [Y]");
    assert_eq!(Axis::Free.tag(), "");
}

#[test]
fn transform_steps_toggle_constraints() {
    let mut axis = Axis::Free;
    assert_eq!(step(&mut axis, &key(Key::Char('x')), false), Step::Update);
    assert_eq!(axis, Axis::X);
    assert_eq!(step(&mut axis, &key(Key::Char('y')), false), Step::Update);
    assert_eq!(axis, Axis::Y);
    assert_eq!(step(&mut axis, &key(Key::Char('y')), false), Step::Update);
    assert_eq!(axis, Axis::Free, "the same key again frees it");
    assert_eq!(step(&mut axis, &Event::PointerMoved, false), Step::Update);
    assert_eq!(step(&mut axis, &key(Key::Escape), false), Step::Cancel);
    assert_eq!(step(&mut axis, &key(Key::Tab), false), Step::Nothing);
    assert_eq!(flow_of_step(Step::Finish), Flow::Finished);
    assert_eq!(flow_of_step(Step::Cancel), Flow::Cancelled);
    assert_eq!(flow_of_step(Step::Nothing), Flow::Running);
}

#[test]
fn exchange_reports() {
    assert_eq!(ImportObj::report(1, 8, 6, 0), "Imported 1 object(s): 8 vertices, 6 faces");
    assert_eq!(ImportObj::report(2, 1024, 990, 3), "Imported 2 object(s): 1024 vertices, 990 faces, 3 face(s) skipped");
    assert_eq!(ExportObj::report(1, "/tmp/cube.obj"), "Exported 1 object(s) to /tmp/cube.obj");
}
