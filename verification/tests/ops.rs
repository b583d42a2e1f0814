//! The operator system end to end: run, undo, redo, rollback, modal flow,
//! keymaps. The document here is a small stand-in the tests edit directly,
//! as a host would in its operators.

use prism::builtin::wm::{CallMenu, Undo};
use prism::context::{Ctx, Flow, Outcome, UiRequest};
use prism::executor::Executor;
use prism::input::{Event, Key, Modifiers};
use prism::keymap::{KeyConfig, Value};
use prism::operator::{OpError, OpFlags, OpResult};
use prism::registry::{OpInfo, Registry};

#[derive(Clone, Debug, PartialEq)]
struct Object {
    name: String,
    x: f64,
    selected: bool,
    edit: bool,
}

#[derive(Clone, Debug, PartialEq)]
struct Doc {
    objects: Vec<Object>,
    active: Option<usize>,
}

impl Doc {
    /// A cube, a camera at x = 7 and a light; the camera is active.
    fn starter() -> Doc {
        let o = |name: &str, x: f64| Object { name: name.to_owned(), x, selected: false, edit: false };
        Doc { objects: vec![o("Cube", 0.0), o("Camera", 7.0), o("Light", 3.0)], active: Some(1) }
    }

    fn active_object(&self) -> Option<&Object> {
        self.active.and_then(|i| self.objects.get(i))
    }
}

type Props = Vec<(String, Value)>;
type Ex = Executor<Doc, Props, i64>;

fn prop<'a>(p: &'a Props, name: &str) -> Option<&'a Value> {
    p.iter().find(|(n, _)| n == name).map(|(_, v)| v)
}

fn props(pairs: &[(&str, Value)]) -> Props {
    pairs.iter().map(|(n, v)| (n.to_string(), v.clone())).collect()
}

/// The host's side of the built-in operators these tests use.
fn host_poll(doc: &Doc, id: &str) -> bool {
    match id {
        "object.delete" => doc.objects.iter().any(|o| o.selected),
        _ => true,
    }
}

fn host_exec(doc: &mut Doc, ctx: &mut Ctx, id: &str, p: &Props) -> OpResult<Outcome> {
    match id {
        "object.add_primitive" => {
            let name = match prop(p, "kind") {
                Some(Value::Enum(2)) => "Sphere",
                Some(Value::Enum(0)) => "Plane",
                _ => "Cube",
            };
            for o in doc.objects.iter_mut() {
                o.selected = false;
            }
            doc.objects.push(Object { name: name.to_owned(), x: 0.0, selected: true, edit: false });
            doc.active = Some(doc.objects.len() - 1);
            ctx.report(format!("Added {name}"));
            Ok(Outcome::Finished)
        }
        "object.select" => match prop(p, "id") {
            Some(Value::I64(i)) if (*i as usize) < doc.objects.len() => {
                for o in doc.objects.iter_mut() {
                    o.selected = false;
                }
                doc.objects[*i as usize].selected = true;
                doc.active = Some(*i as usize);
                Ok(Outcome::Finished)
            }
            _ => {
                // Half-done work that the rollback has to undo.
                doc.objects.clear();
                Err(OpError::Failed("no such object".into()))
            }
        },
        "object.delete" => {
            doc.objects.retain(|o| !o.selected);
            doc.active = None;
            Ok(Outcome::Finished)
        }
        "object.mode_set" => {
            let edit = matches!(prop(p, "mode"), Some(Value::Enum(1)));
            if let Some(i) = doc.active {
                doc.objects[i].edit = edit;
            }
            Ok(Outcome::Finished)
        }
        "object.translate" => {
            if let Some(i) = doc.active {
                doc.objects[i].x += 0.001;
            }
            Ok(Outcome::Finished)
        }
        "ed.undo" => Undo::exec(ctx),
        "wm.call_menu" => match prop(p, "menu") {
            Some(Value::Str(m)) => CallMenu::exec(ctx, m),
            _ => CallMenu::exec(ctx, ""),
        },
        _ => Ok(Outcome::Cancelled),
    }
}

/// Run `id` with `p` the way the editor does: check, snapshot, execute,
/// finish.
fn run(ex: &mut Ex, doc: &mut Doc, id: &str, p: Props) -> OpResult<Outcome> {
    let mut ctx = Ctx::new();
    let snapshot = doc.clone();
    let pending = ex.begin(id, doc, |s| host_poll(&snapshot, s))?;
    let result = host_exec(doc, &mut ctx, id, &p);
    ex.finish_run(pending, p, result, &mut ctx, doc)
}

fn setup() -> (Doc, Ex) {
    (Doc::starter(), Executor::with_builtins())
}

#[test]
fn add_undo_redo() {
    let (mut doc, mut ex) = setup();
    let n = doc.objects.len();
    run(&mut ex, &mut doc, "object.add_primitive", props(&[("kind", Value::Enum(2))])).unwrap();
    assert_eq!(doc.objects.len(), n + 1);
    assert_eq!(doc.active_object().unwrap().name, "Sphere");
    assert_eq!(ex.history.len(), 1);
    assert_eq!(ex.last_report.as_deref(), Some("Added Sphere"));
    assert!(ex.undo(&mut doc));
    assert_eq!(doc.objects.len(), n);
    assert!(ex.redo(&mut doc));
    assert_eq!(doc.objects.len(), n + 1);
    // Undo through the operator (request routed by the executor).
    run(&mut ex, &mut doc, "ed.undo", vec![]).unwrap();
    assert_eq!(doc.objects.len(), n);
    assert!(ex.requests.is_empty(), "undo request was consumed, not forwarded");
}

#[test]
fn errors_roll_back_and_poll_gates() {
    let (mut doc, mut ex) = setup();
    // Nothing selected: delete polls false.
    assert!(matches!(run(&mut ex, &mut doc, "object.delete", vec![]), Err(OpError::Poll(_))));
    assert!(matches!(run(&mut ex, &mut doc, "nope.nothing", vec![]), Err(OpError::Unknown(_))));
    // Selecting a bogus id fails and leaves the document untouched.
    let before = doc.clone();
    let r = run(&mut ex, &mut doc, "object.select", props(&[("id", Value::I64(9999))]));
    assert!(matches!(r, Err(OpError::Failed(_))));
    assert_eq!(doc, before);
    assert_eq!(ex.history.len(), 0);
    assert!(ex.last_report.is_some());
    assert_eq!(ex.last_report.as_deref(), Some("Select Object: no such object"));
}

/// What `test.nudge` does on each event: a pointer move nudges the active
/// object by one and counts; after `target` moves it finishes; Escape
/// cancels.
fn nudge_modal(count: &mut i64, doc: &mut Doc, target: i64, ev: &Event) -> OpResult<Flow> {
    match ev {
        Event::PointerMoved => {
            *count += 1;
            if let Some(i) = doc.active {
                doc.objects[i].x += 1.0;
            }
            Ok(if *count >= target { Flow::Finished } else { Flow::Running })
        }
        Event::Key { key: Key::Escape, .. } => Ok(Flow::Cancelled),
        _ => Ok(Flow::PassThrough),
    }
}

fn invoke_nudge(ex: &mut Ex, doc: &mut Doc) -> OpResult<Flow> {
    let mut ctx = Ctx::new();
    let pending = ex.begin("test.nudge", doc, |_| true)?;
    ex.finish_invoke(pending, props(&[("target", Value::I64(3))]), 0, Ok(Flow::Running), &mut ctx, doc)
}

fn feed_nudge(ex: &mut Ex, doc: &mut Doc, ev: &Event) -> Option<OpResult<Flow>> {
    let mut ctx = Ctx::new();
    let (mut m, info) = ex.begin_modal()?;
    let target = match prop(&m.props, "target") {
        Some(Value::I64(t)) => *t,
        _ => 3,
    };
    let result = nudge_modal(&mut m.state, doc, target, ev);
    Some(ex.finish_modal(m, info, result, &mut ctx, doc))
}

#[test]
fn modal_lifecycle() {
    let mut doc = Doc::starter();
    let mut reg = Registry::new();
    reg.register_info(OpInfo { id: "test.nudge", label: "Nudge", flags: OpFlags(3) });
    let mut ex: Ex = Executor::new(reg);
    let start = Event::PointerMoved;
    assert_eq!(invoke_nudge(&mut ex, &mut doc).unwrap(), Flow::Running);
    assert!(ex.is_modal());
    assert!(matches!(ex.begin("test.nudge", &doc, |_| true), Err(OpError::Busy)));
    for _ in 0..2 {
        assert_eq!(feed_nudge(&mut ex, &mut doc, &start).unwrap().unwrap(), Flow::Running);
    }
    assert_eq!(feed_nudge(&mut ex, &mut doc, &start).unwrap().unwrap(), Flow::Finished);
    assert!(!ex.is_modal());
    assert_eq!(doc.active_object().unwrap().x, 7.0 + 3.0, "camera starts at x=7");
    assert_eq!(ex.history.len(), 1, "one step for the whole modal run");
    // Cancel restores the snapshot from before invoke.
    invoke_nudge(&mut ex, &mut doc).unwrap();
    let _ = feed_nudge(&mut ex, &mut doc, &start);
    let esc = Event::Key { key: Key::Escape, pressed: true, repeat: false, mods: Modifiers::none() };
    assert_eq!(feed_nudge(&mut ex, &mut doc, &esc).unwrap().unwrap(), Flow::Cancelled);
    assert_eq!(doc.active_object().unwrap().x, 10.0);
    assert_eq!(ex.history.len(), 1);
    // Nothing runs any more.
    assert!(feed_nudge(&mut ex, &mut doc, &start).is_none());
}

#[test]
fn keymap_drives_operators() {
    let (mut doc, mut ex) = setup();
    let keys = KeyConfig::default_prism();
    run(&mut ex, &mut doc, "object.select", props(&[("id", Value::I64(0))])).unwrap();
    let tab = Event::Key { key: Key::Tab, pressed: true, repeat: false, mods: Modifiers::none() };
    let snapshot = doc.clone();
    let item = keys.resolve(&["object", "window"], &tab, |op| ex.registry.get(op).is_some() && host_poll(&snapshot, op)).unwrap();
    let overrides: Props = item.overrides().into_iter().map(|(n, v)| (n.to_owned(), v)).collect();
    run(&mut ex, &mut doc, &item.op.clone(), overrides).unwrap();
    assert!(doc.active_object().unwrap().edit);
    // Shift+A in object mode asks the UI for the add menu.
    let shift_a = Event::Key { key: Key::Char('A'), pressed: true, repeat: false, mods: Modifiers::shift() };
    let item = keys.resolve(&["object"], &shift_a, |_| true).unwrap();
    let overrides: Props = item.overrides().into_iter().map(|(n, v)| (n.to_owned(), v)).collect();
    run(&mut ex, &mut doc, &item.op.clone(), overrides).unwrap();
    assert_eq!(ex.requests, vec![UiRequest::Menu("add".into())]);
}

#[test]
fn many_steps_unwind_to_the_start() {
    let (mut doc, mut ex) = setup();
    run(&mut ex, &mut doc, "object.select", props(&[("id", Value::I64(0))])).unwrap();
    let base = doc.objects[0].x;
    for _ in 0..10_000 {
        run(&mut ex, &mut doc, "object.translate", vec![]).unwrap();
    }
    assert_eq!(ex.history.len(), 10_001);
    assert_eq!(ex.history.cursor(), 10_001);
    // And the whole history unwinds back to the start.
    while ex.undo(&mut doc) {}
    assert_eq!(doc.objects[0].x, base);
    assert!(ex.history.can_redo());
}

#[test]
fn dirty_tracking_follows_the_history() {
    let (mut doc, mut ex) = setup();
    assert!(!ex.is_dirty());
    run(&mut ex, &mut doc, "object.add_primitive", vec![]).unwrap();
    assert!(ex.is_dirty());
    ex.mark_saved();
    assert!(!ex.is_dirty());
    assert!(ex.undo(&mut doc));
    assert!(ex.is_dirty());
    assert!(ex.redo(&mut doc));
    assert!(!ex.is_dirty(), "back where it was saved");
    // A new step after an undo is a new revision, even at the same depth.
    assert!(ex.undo(&mut doc));
    run(&mut ex, &mut doc, "object.add_primitive", props(&[("kind", Value::Enum(0))])).unwrap();
    assert_eq!(ex.history.cursor(), 1);
    assert!(ex.is_dirty());
    assert!(!ex.history.can_redo(), "the undone step was dropped");
}

#[test]
fn operations_that_do_not_finish_record_nothing() {
    let (mut doc, mut ex) = setup();
    // Not undoable: the menu request goes to the UI, no step.
    run(&mut ex, &mut doc, "wm.call_menu", props(&[("menu", Value::Str("add".into()))])).unwrap();
    assert_eq!(ex.history.len(), 0);
    assert_eq!(ex.requests, vec![UiRequest::Menu("add".into())]);
    // No menu named: an error, reported with the operator's label.
    let r = run(&mut ex, &mut doc, "wm.call_menu", vec![]);
    assert_eq!(r, Err(OpError::Failed("no menu named".into())));
    assert_eq!(ex.last_report.as_deref(), Some("Open Menu: no menu named"));
    // Cancelled: nothing recorded.
    assert_eq!(run(&mut ex, &mut doc, "object.shade", vec![]).unwrap(), Outcome::Cancelled);
    assert_eq!(ex.history.len(), 0);
}

#[test]
fn adjust_last_reruns_from_the_snapshot() {
    let (mut doc, mut ex) = setup();
    run(&mut ex, &mut doc, "object.add_primitive", props(&[("kind", Value::Enum(2))])).unwrap();
    assert_eq!(doc.objects.last().unwrap().name, "Sphere");
    {
        let (id, p) = ex.last_step_props().unwrap();
        assert_eq!(id, "object.add_primitive");
        p[0].1 = Value::Enum(0);
    }
    let mut ctx = Ctx::new();
    let a = ex.begin_adjust(&mut doc).unwrap();
    assert_eq!(doc, Doc::starter(), "back at the step's snapshot");
    let result = host_exec(&mut doc, &mut ctx, a.info.id, &a.props.clone());
    ex.finish_adjust(a, result, &mut ctx, &mut doc).unwrap();
    assert_eq!(doc.objects.len(), 4);
    assert_eq!(doc.objects.last().unwrap().name, "Plane");
    assert_eq!(ex.history.len(), 1, "adjusting replaces the step");
    assert!(ex.undo(&mut doc));
    assert_eq!(doc, Doc::starter());
    assert!(ex.redo(&mut doc));
    assert_eq!(doc.objects.last().unwrap().name, "Plane");
    // With nothing applied there is nothing to adjust.
    assert!(ex.undo(&mut doc));
    assert!(matches!(ex.begin_adjust(&mut doc), Err(OpError::Failed(m)) if m == "nothing to adjust"));
}

#[test]
fn jump_to_moves_through_the_history() {
    let (mut doc, mut ex) = setup();
    for k in [0, 1, 2] {
        run(&mut ex, &mut doc, "object.add_primitive", props(&[("kind", Value::Enum(k))])).unwrap();
    }
    ex.jump_to(0, &mut doc);
    assert_eq!(doc, Doc::starter());
    assert_eq!(ex.history.cursor(), 0);
    ex.jump_to(2, &mut doc);
    assert_eq!(doc.objects.len(), 5);
    assert_eq!(ex.history.cursor(), 2);
    ex.jump_to(99, &mut doc);
    assert_eq!(ex.history.cursor(), 3);
    assert_eq!(doc.objects.len(), 6);
    let (labels, cursor) = ex.history.labels();
    assert_eq!(labels, vec!["Add Primitive", "Add Primitive", "Add Primitive"]);
    assert_eq!(cursor, 3);
}

#[test]
fn cancel_modal_restores_the_document() {
    let mut doc = Doc::starter();
    let mut reg = Registry::new();
    reg.register_info(OpInfo { id: "test.nudge", label: "Nudge", flags: OpFlags(3) });
    let mut ex: Ex = Executor::new(reg);
    assert!(!ex.cancel_modal(&mut doc));
    invoke_nudge(&mut ex, &mut doc).unwrap();
    let _ = feed_nudge(&mut ex, &mut doc, &Event::PointerMoved);
    assert_eq!(doc.active_object().unwrap().x, 8.0);
    assert!(ex.cancel_modal(&mut doc));
    assert_eq!(doc, Doc::starter());
    assert!(!ex.is_modal());
}

#[test]
fn error_messages() {
    assert_eq!(OpError::Poll("mesh.extrude".into()).message(), "`mesh.extrude` cannot run here");
    assert_eq!(OpError::Unknown("x.y".into()).message(), "unknown operator `x.y`");
    assert_eq!(OpError::Failed("boom".into()).message(), "boom");
    assert_eq!(OpError::Busy.message(), "a modal operator is running");
}
