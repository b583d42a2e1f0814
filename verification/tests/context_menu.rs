use prism::builtin::register_all;
use prism::ui::context_menu::{context_for, ContextMenu, Item, MenuContext, MenuFacts, Pick, SelectMode, ViewFlags, Width};
use prism::ui::icons::Icon;
use prism::registry::Registry;

/// What a starter scene shows the menu: a cube mesh, vertex select mode.
fn cube_facts() -> MenuFacts {
    MenuFacts { object_name: Some("Cube".to_owned()), object_is_mesh: true, select_mode: SelectMode::Vertex, selected: 8 }
}

fn builtins() -> Registry {
    let mut r = Registry::new();
    register_all(&mut r);
    r
}

#[test]
fn menus_match_their_context() {
    let exec = builtins();
    let facts = cube_facts();
    let scene: ContextMenu<u32, ()> = ContextMenu::build(MenuContext::Scene, &facts, &exec, (), ViewFlags::default());
    assert_eq!(scene.tabs.iter().map(|t| t.label.as_str()).collect::<Vec<_>>(), vec!["Add", "View", "Select"]);
    assert_eq!(scene.tabs[0].items.len(), 6);
    assert!(scene.tools.iter().any(|t| t.icon == Icon::Plus));

    let cube = 1u32;
    let obj: ContextMenu<u32, ()> = ContextMenu::build(MenuContext::Object(cube), &facts, &exec, (), ViewFlags::default());
    assert_eq!(obj.title, "Cube");
    assert_eq!(obj.width, Width::Wide);
    assert!(obj.tabs[0].items.iter().any(|i| matches!(i, Item::Action(a) if a.op == "object.mode_set")));
    assert!(obj.tabs[0].items.iter().any(|i| matches!(i, Item::OpPanel { op, .. } if op == "object.rename")));
    assert!(matches!(obj.tabs[1].items[0], Item::ObjectProps(id) if id == cube));
    assert!(obj.tools.iter().any(|t| t.icon == Icon::EditMode));

    let mesh_id = 2u32;
    let el: ContextMenu<u32, ()> =
        ContextMenu::build(MenuContext::Element { mesh: mesh_id, kind: SelectMode::Face }, &facts, &exec, (), ViewFlags::default());
    assert!(el.title.starts_with("Face"));
    assert_eq!(el.tools[0].icon, Icon::Vertex);
    assert!(el.tools[0].active, "vertex mode is the scene default");
    assert!(!el.tabs[0].items.iter().any(|i| matches!(i, Item::OpPanel { .. })), "knobs live in the Properties editor");
    for op in ["mesh.extrude", "mesh.subdivide", "mesh.merge_by_distance"] {
        assert!(el.tabs[0].items.iter().any(|i| matches!(i, Item::Action(a) if a.op == op)), "{op} is a plain action");
    }
    assert!(el.tabs[0].items.iter().any(|i| matches!(i, Item::Sub { label, items } if label == "Delete" && items.len() == 4)));
}

#[test]
fn context_from_picks() {
    let cube = 1u32;
    let mesh = 2u32;
    assert_eq!(context_for(None, Pick::<u32>::Nothing), MenuContext::Scene);
    assert_eq!(context_for(None, Pick::Object(cube)), MenuContext::Object(cube));
    // In edit mode, empty space is the mesh menu and a face is an element menu.
    assert_eq!(context_for(Some(mesh), Pick::Nothing), MenuContext::Mesh(mesh));
    assert_eq!(context_for(Some(mesh), Pick::Face(mesh)), MenuContext::Element { mesh, kind: SelectMode::Face });
}

#[test]
fn menu_titles_and_tools() {
    let exec = builtins();
    let mut facts = cube_facts();
    facts.selected = 120;
    facts.select_mode = SelectMode::Edge;
    let m: ContextMenu<u32, (i32, i32)> = ContextMenu::build(MenuContext::Mesh(2), &facts, &exec, (5, 6), ViewFlags { wire: true, grid: true });
    assert_eq!(m.title, "Mesh · 120 selected");
    assert_eq!(m.pos, (5, 6));
    assert_eq!(m.tools.len(), 7);
    assert!(!m.tools[0].active && m.tools[1].active && !m.tools[2].active);
    assert!(m.tools[4].active, "wire shading is on");
    assert!(m.tools[5].active, "the grid is on");
    let e: ContextMenu<u32, ()> = ContextMenu::build(MenuContext::Element { mesh: 2, kind: SelectMode::Vertex }, &facts, &exec, (), ViewFlags::default());
    assert_eq!(e.title, "Vertex · 120 selected");
    facts.selected = 0;
    let e: ContextMenu<u32, ()> = ContextMenu::build(MenuContext::Mesh(2), &facts, &exec, (), ViewFlags::default());
    assert_eq!(e.title, "Mesh · 0 selected");
    // An empty, not a mesh, with no rename operator registered.
    let plain = MenuFacts { object_name: None, object_is_mesh: false, select_mode: SelectMode::Vertex, selected: 0 };
    let o: ContextMenu<u32, ()> = ContextMenu::build(MenuContext::Object(3), &plain, &Registry::new(), (), ViewFlags::default());
    assert_eq!(o.title, "Object");
    assert_eq!(o.tabs[0].items.len(), 3);
    assert_eq!(o.tools.len(), 4);
}
