use prism::ui::context_menu::{view_tools, ViewFlags, Width};
use prism::ui::editors::{adjustable, row_mark, row_target, tab_label, EditorKind, PropertiesState, PropertiesTab, RowMark};
use prism::ui::gizmo::{axis_index, handle_axis};
use prism::ui::icons::Icon;
use prism::ui::shell::WindowState;
use prism::ui::state::CursorIcon;
use prism::ui::titlebar::{button_command, cursor_for, edge_at, resize_command, title_press, EdgeZone, ResizeEdge, TitleButton, WindowCommand};
use prism::builtin::transform::Axis;
use prism::keymap::Value;
use prism::context::UiRequest;
use prism::ui::popups::{menu, popup_for, Popup};
use prism::viewport::request::{GizmoHandle, GizmoMode};

/// The bands a point lies in for a window rect, edge and corner widths.
fn zone(px: f64, py: f64, w: (f64, f64, f64, f64), edge: f64, corner: f64) -> EdgeZone {
    let (x0, y0, x1, y1) = w;
    EdgeZone {
        n: py < y0 + edge,
        s: py >= y1 - edge,
        w: px < x0 + edge,
        e: px >= x1 - edge,
        near_n: py < y0 + corner,
        near_s: py >= y1 - corner,
        near_w: px < x0 + corner,
        near_e: px >= x1 - corner,
    }
}

#[test]
fn edges_and_corners() {
    let w = (0.0, 0.0, 1000.0, 500.0);
    let at = |x: f64, y: f64| edge_at(zone(x, y, w, 5.0, 15.0));
    assert_eq!(at(2.0, 250.0), Some(ResizeEdge::West));
    assert_eq!(at(998.0, 250.0), Some(ResizeEdge::East));
    assert_eq!(at(500.0, 2.0), Some(ResizeEdge::North));
    assert_eq!(at(500.0, 497.0), Some(ResizeEdge::South));
    assert_eq!(at(2.0, 10.0), Some(ResizeEdge::NorthWest));
    assert_eq!(at(990.0, 498.0), Some(ResizeEdge::SouthEast));
    assert_eq!(at(500.0, 250.0), None);
    assert_eq!(cursor_for(ResizeEdge::NorthEast), CursorIcon::NeswResize);
}

#[test]
fn window_commands() {
    let z = zone(2.0, 250.0, (0.0, 0.0, 1000.0, 500.0), 5.0, 15.0);
    assert_eq!(resize_command(false, true, false, false, Some(z)), (Some(WindowCommand::Resize(ResizeEdge::West)), true));
    assert_eq!(resize_command(true, true, false, false, Some(z)), (None, false), "maximized windows do not resize");
    assert_eq!(resize_command(false, false, false, false, Some(z)), (None, false));
    assert_eq!(resize_command(false, true, true, false, Some(z)), (None, false));
    assert_eq!(resize_command(false, true, false, false, None), (None, false));
    assert_eq!(resize_command(false, true, false, true, Some(z)), (None, true), "a claimed press is left alone");
    assert_eq!(button_command(TitleButton::Close), WindowCommand::Close);
    assert_eq!(button_command(TitleButton::Maximize), WindowCommand::ToggleMaximize);
    assert_eq!(button_command(TitleButton::Minimize), WindowCommand::Minimize);
    assert_eq!(title_press(true), WindowCommand::ToggleMaximize);
    assert_eq!(title_press(false), WindowCommand::Drag);
    assert_eq!(cursor_for(ResizeEdge::North), CursorIcon::NsResize);
    assert_eq!(cursor_for(ResizeEdge::West), CursorIcon::EwResize);
    assert_eq!(cursor_for(ResizeEdge::SouthEast), CursorIcon::NwseResize);
    assert_eq!(WindowState::default(), WindowState { maximized: false, focused: false });
}

#[test]
fn editor_kinds_and_properties_tabs() {
    for (i, k) in EditorKind::all().into_iter().enumerate() {
        assert_eq!(k.index(), i);
    }
    assert_eq!(EditorKind::Viewport.label(), "3D Viewport");
    assert_eq!(EditorKind::Gallery.label(), "Widget Gallery");
    assert_eq!(EditorKind::Empty.index(), 3);
    assert_eq!(PropertiesState::default().current(), PropertiesTab::Object);
    assert_eq!(PropertiesState { tab: 2 }.current(), PropertiesTab::Scene);
    assert_eq!(PropertiesState { tab: 9 }.current(), PropertiesTab::History);
    assert_eq!(tab_label(PropertiesTab::History), "History");
    // Two of three steps applied.
    assert_eq!(row_mark(0, 2), RowMark::Applied);
    assert_eq!(row_mark(1, 2), RowMark::Current);
    assert_eq!(row_mark(2, 2), RowMark::Undone);
    assert_eq!(row_target(1), 2);
    assert!(adjustable("mesh.extrude"));
    assert!(!adjustable("ui.edit"));
}

#[test]
fn context_menu_view_tools() {
    let t = view_tools(true, false);
    assert_eq!(t.len(), 4);
    assert_eq!((t[0].icon, t[0].active, t[0].op.as_str()), (Icon::Solid, false, "view3d.shading"));
    assert_eq!(t[0].overrides, vec![("wire".to_owned(), Value::Bool(false))]);
    assert_eq!((t[1].icon, t[1].active), (Icon::Wire, true));
    assert_eq!((t[2].icon, t[2].active, t[2].op.as_str()), (Icon::Grid, false, "view3d.toggle_grid"));
    assert_eq!((t[3].icon, t[3].op.as_str()), (Icon::Frame, "view3d.frame_all"));
    assert_eq!(ViewFlags::default(), ViewFlags { wire: false, grid: false });
    assert_ne!(Width::Narrow, Width::Wide);
}

#[test]
fn gizmo_handles_start_constrained_transforms() {
    assert_eq!(axis_index(GizmoHandle::Free), 0);
    assert_eq!(axis_index(GizmoHandle::Z), 3);
    assert_eq!(handle_axis(GizmoHandle::Y), Axis::Y);
    assert_eq!(handle_axis(GizmoHandle::Free), Axis::Free);
}

#[test]
fn named_menus_and_popups() {
    match menu("add", (3, 4)) {
        Some(Popup::Menu { title, items, pos }) => {
            assert_eq!(title, "Add");
            assert_eq!(pos, (3, 4));
            let labels: Vec<&str> = items.iter().map(|i| i.label.as_str()).collect();
            assert_eq!(labels, vec!["Plane", "Cube", "UV Sphere", "Cylinder", "Grid", "Circle"]);
            assert_eq!(items[4].overrides, vec![("kind".to_owned(), Value::Enum(4)), ("segments".to_owned(), Value::I64(10))]);
        }
        _ => panic!("the add menu"),
    }
    match menu("mesh_delete", ()) {
        Some(Popup::Menu { title, items, .. }) => {
            assert_eq!(title, "Delete");
            assert_eq!(items.len(), 7);
            assert_eq!(items[6].op, "mesh.dissolve");
        }
        _ => panic!("the delete menu"),
    }
    assert!(menu("nope", ()).is_none());
    assert!(matches!(popup_for(UiRequest::Palette, (), None), Some(Popup::Palette { ref query, selected: 0 }) if query.is_empty()));
    let path = |suggest: Option<&str>, doc: Option<&str>| match popup_for(
        UiRequest::PathDialog { op: "wm.save".into(), save: true, suggest: suggest.map(|s| s.to_owned()) },
        (),
        doc,
    ) {
        Some(Popup::Path { text, op, save }) => {
            assert_eq!((op.as_str(), save), ("wm.save", true));
            text
        }
        _ => panic!("a path dialog"),
    };
    assert_eq!(path(Some("a.obj"), Some("b.prism")), "a.obj");
    assert_eq!(path(None, Some("b.prism")), "b.prism");
    assert_eq!(path(None, None), "untitled.prism");
    assert!(popup_for(UiRequest::Quit, (), None).is_none());
    assert!(popup_for(UiRequest::Menu("nope".into()), (), None).is_none());
}

#[test]
fn gizmo_cycle_visits_every_mode() {
    assert_eq!(GizmoMode::Move.next(), GizmoMode::Rotate);
    assert_eq!(GizmoMode::Rotate.next(), GizmoMode::Scale);
    assert_eq!(GizmoMode::Scale.next(), GizmoMode::Move);
}

#[test]
fn window_titles() {
    assert_eq!(prism::ui::shell::document_title(None, false), "Prism · Untitled");
    assert_eq!(prism::ui::shell::document_title(Some("/home/me/scene.prism"), false), "Prism · scene.prism");
    assert_eq!(prism::ui::shell::document_title(Some("/home/me/scene.prism"), true), "Prism · scene.prism *");
    assert_eq!(prism::ui::shell::document_title(Some("/"), false), "Prism · Untitled");
}
