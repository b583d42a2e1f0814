//! The right-click context menu: built from what was under the pointer,
//! with tabs, submenus, operator panels and a tool strip. What it needs to
//! know of the document (an object's name and kind, the element select
//! mode, how many vertices are selected) the host hands over as plain
//! values.

use vstd::prelude::*;
use vstd::string::*;

use crate::decimal::{decimal, push_decimal};
use crate::keymap::Value;
use crate::registry::Registry;
use crate::ui::icons::Icon;

verus! {

#[derive(Clone, Copy, Debug, PartialEq, Eq, Structural)]
pub enum Width {
    Narrow,
    Wide,
}

/// Viewport display state the menu reflects in its tool strip.
#[derive(Clone, Copy, Debug, PartialEq, Eq, Structural)]
pub struct ViewFlags {
    pub wire: bool,
    pub grid: bool,
}

impl Default for ViewFlags {
    /// Solid shading, no grid.
    fn default() -> (r: ViewFlags)
        ensures
            r == (ViewFlags { wire: false, grid: false }),
    {
        ViewFlags { wire: false, grid: false }
    }
}

/// One button of the tool strip: an icon, whether it shows as on, and the
/// operator it runs with its property overrides.
pub struct Tool {
    pub icon: Icon,
    pub active: bool,
    pub op: String,
    pub overrides: Vec<(String, Value)>,
}

/// `t` shows `icon`, lit when `active`, and runs `op` with no overrides.
pub open spec fn tool_is(t: Tool, icon: Icon, active: bool, op: Seq<char>) -> bool {
    &&& t.icon == icon
    &&& t.active == active
    &&& t.op@ == op
    &&& t.overrides@.len() == 0
}

/// `t` shows `icon`, lit when `active`, and runs `op` setting `field` to `v`.
pub open spec fn tool_sets(t: Tool, icon: Icon, active: bool, op: Seq<char>, field: Seq<char>, v: Value) -> bool {
    &&& t.icon == icon
    &&& t.active == active
    &&& t.op@ == op
    &&& t.overrides@.len() == 1
    &&& t.overrides@[0].0@ == field
    &&& t.overrides@[0].1 == v
}

fn tool(icon: Icon, active: bool, op: &str) -> (t: Tool)
    ensures
        tool_is(t, icon, active, op@),
{
    Tool { icon, active, op: op.to_owned(), overrides: Vec::new() }
}

fn tool_with(icon: Icon, active: bool, op: &str, field: &str, v: Value) -> (t: Tool)
    ensures
        tool_sets(t, icon, active, op@, field@, v),
{
    let mut overrides: Vec<(String, Value)> = Vec::new();
    overrides.push((field.to_owned(), v));
    Tool { icon, active, op: op.to_owned(), overrides }
}

/// The view tools every viewport menu carries: solid and wire shading (the
/// current one lit), the grid toggle (lit when shown), frame all.
pub fn view_tools(shading_wire: bool, grid: bool) -> (r: Vec<Tool>)
    ensures
        r@.len() == 4,
        tool_sets(r@[0], Icon::Solid, !shading_wire, "view3d.shading"@, "wire"@, Value::Bool(false)),
        tool_sets(r@[1], Icon::Wire, shading_wire, "view3d.shading"@, "wire"@, Value::Bool(true)),
        tool_is(r@[2], Icon::Grid, grid, "view3d.toggle_grid"@),
        tool_is(r@[3], Icon::Frame, false, "view3d.frame_all"@),
{
    let mut v: Vec<Tool> = Vec::new();
    v.push(tool_with(Icon::Solid, !shading_wire, "view3d.shading", "wire", Value::Bool(false)));
    v.push(tool_with(Icon::Wire, shading_wire, "view3d.shading", "wire", Value::Bool(true)));
    v.push(tool(Icon::Grid, grid, "view3d.toggle_grid"));
    v.push(tool(Icon::Frame, false, "view3d.frame_all"));
    v
}

/// Which elements clicks select while editing a mesh.
#[derive(Clone, Copy, Debug, PartialEq, Eq, Structural)]
pub enum SelectMode {
    Vertex,
    Edge,
    Face,
}

impl SelectMode {
    pub open spec fn label_spec(self) -> Seq<char> {
        match self {
            SelectMode::Vertex => "Vertex"@,
            SelectMode::Edge => "Edge"@,
            SelectMode::Face => "Face"@,
        }
    }

    pub fn label(self) -> (r: &'static str)
        ensures
            r@ == self.label_spec(),
    {
        match self {
            SelectMode::Vertex => "Vertex",
            SelectMode::Edge => "Edge",
            SelectMode::Face => "Face",
        }
    }
}

/// What was under the pointer when the menu opened; `I` identifies objects
/// and meshes.
#[derive(Clone, Copy, Debug, PartialEq, Eq)]
pub enum MenuContext<I> {
    /// Empty space in a viewport or the outliner, object mode.
    Scene,
    Object(I),
    /// Empty space while editing `mesh`.
    Mesh(I),
    /// An element of `mesh` (already selected by the time the menu opens).
    Element { mesh: I, kind: SelectMode },
}

/// An entry that runs an operator with property overrides.
pub struct Action {
    pub label: String,
    pub op: String,
    pub overrides: Vec<(String, Value)>,
}

pub enum Item<I> {
    Header(String),
    Separator,
    Action(Action),
    Sub { label: String, items: Vec<Action> },
    /// An operator's properties with Apply; afterwards edits re-run it live.
    OpPanel { op: String, label: String, applied: bool },
    /// The properties of an object, edited in place (undoable).
    ObjectProps(I),
}

pub struct Tab<I> {
    pub label: String,
    pub items: Vec<Item<I>>,
}

pub struct ContextMenu<I, P> {
    pub context: MenuContext<I>,
    pub title: String,
    pub tabs: Vec<Tab<I>>,
    pub tab: usize,
    pub tools: Vec<Tool>,
    /// Where it opened.
    pub pos: P,
    pub width: Width,
    /// Submenu open in the current tab, by item index.
    pub open_sub: Option<usize>,
}

/// What the menu shows of the document.
pub struct MenuFacts {
    /// The picked object's name, when it exists.
    pub object_name: Option<String>,
    /// The picked object holds a mesh.
    pub object_is_mesh: bool,
    /// The scene's element select mode.
    pub select_mode: SelectMode,
    /// Selected vertices of the mesh being edited.
    pub selected: usize,
}

/// `a` is labelled `label` and runs `op` with no overrides.
pub open spec fn plain_act(a: Action, label: Seq<char>, op: Seq<char>) -> bool {
    &&& a.label@ == label
    &&& a.op@ == op
    &&& a.overrides@.len() == 0
}

/// `a` is labelled `label` and runs `op` setting `field` to `v`.
pub open spec fn act_with(a: Action, label: Seq<char>, op: Seq<char>, field: Seq<char>, v: Value) -> bool {
    &&& a.label@ == label
    &&& a.op@ == op
    &&& a.overrides@.len() == 1
    &&& a.overrides@[0].0@ == field
    &&& a.overrides@[0].1 == v
}

pub open spec fn is_act<I>(i: Item<I>, label: Seq<char>, op: Seq<char>) -> bool {
    i matches Item::Action(a) && plain_act(a, label, op)
}

pub open spec fn is_act_with<I>(i: Item<I>, label: Seq<char>, op: Seq<char>, field: Seq<char>, v: Value) -> bool {
    i matches Item::Action(a) && act_with(a, label, op, field, v)
}

fn action(label: &str, op: &str) -> (a: Action)
    ensures
        plain_act(a, label@, op@),
{
    Action { label: label.to_owned(), op: op.to_owned(), overrides: Vec::new() }
}

fn action_with(label: &str, op: &str, field: &str, v: Value) -> (a: Action)
    ensures
        act_with(a, label@, op@, field@, v),
{
    let mut overrides: Vec<(String, Value)> = Vec::new();
    overrides.push((field.to_owned(), v));
    Action { label: label.to_owned(), op: op.to_owned(), overrides }
}

/// The scene menu's Add tab: one entry per primitive.
pub open spec fn add_tab<I>(items: Seq<Item<I>>) -> bool {
    &&& items.len() == 6
    &&& is_act_with(items[0], "Plane"@, "object.add_primitive"@, "kind"@, Value::Enum(0))
    &&& is_act_with(items[1], "Cube"@, "object.add_primitive"@, "kind"@, Value::Enum(1))
    &&& is_act_with(items[2], "UV Sphere"@, "object.add_primitive"@, "kind"@, Value::Enum(2))
    &&& is_act_with(items[3], "Cylinder"@, "object.add_primitive"@, "kind"@, Value::Enum(3))
    &&& items[4] matches Item::Action(g) && g.label@ == "Grid"@ && g.op@ == "object.add_primitive"@
        && g.overrides@.len() == 2 && g.overrides@[0].0@ == "kind"@ && g.overrides@[0].1 == Value::Enum(4)
        && g.overrides@[1].0@ == "segments"@ && g.overrides@[1].1 == Value::I64(10)
    &&& is_act_with(items[5], "Circle"@, "object.add_primitive"@, "kind"@, Value::Enum(5))
}

fn add_items<I>() -> (v: Vec<Item<I>>)
    ensures
        add_tab(v@),
{
    let mut v: Vec<Item<I>> = Vec::new();
    v.push(Item::Action(action_with("Plane", "object.add_primitive", "kind", Value::Enum(0))));
    v.push(Item::Action(action_with("Cube", "object.add_primitive", "kind", Value::Enum(1))));
    v.push(Item::Action(action_with("UV Sphere", "object.add_primitive", "kind", Value::Enum(2))));
    v.push(Item::Action(action_with("Cylinder", "object.add_primitive", "kind", Value::Enum(3))));
    let mut grid = action_with("Grid", "object.add_primitive", "kind", Value::Enum(4));
    grid.overrides.push(("segments".to_owned(), Value::I64(10)));
    v.push(Item::Action(grid));
    v.push(Item::Action(action_with("Circle", "object.add_primitive", "kind", Value::Enum(5))));
    v
}

/// The scene menu's View tab.
pub open spec fn view_tab<I>(items: Seq<Item<I>>) -> bool {
    &&& items.len() == 2
    &&& is_act(items[0], "Frame All"@, "view3d.frame_all"@)
    &&& is_act(items[1], "Frame Selected"@, "view3d.frame_selected"@)
}

fn view_items<I>() -> (v: Vec<Item<I>>)
    ensures
        view_tab(v@),
{
    let mut v: Vec<Item<I>> = Vec::new();
    v.push(Item::Action(action("Frame All", "view3d.frame_all")));
    v.push(Item::Action(action("Frame Selected", "view3d.frame_selected")));
    v
}

/// A Select tab running `op` to select all, deselect all, or invert.
pub open spec fn select_tab<I>(items: Seq<Item<I>>, op: Seq<char>) -> bool {
    &&& items.len() == 3
    &&& is_act_with(items[0], "Select All"@, op, "action"@, Value::Enum(1))
    &&& is_act_with(items[1], "Deselect All"@, op, "action"@, Value::Enum(2))
    &&& is_act_with(items[2], "Invert"@, op, "action"@, Value::Enum(3))
}

fn select_items<I>(op: &str) -> (v: Vec<Item<I>>)
    ensures
        select_tab(v@, op@),
{
    let mut v: Vec<Item<I>> = Vec::new();
    v.push(Item::Action(action_with("Select All", op, "action", Value::Enum(1))));
    v.push(Item::Action(action_with("Deselect All", op, "action", Value::Enum(2))));
    v.push(Item::Action(action_with("Invert", op, "action", Value::Enum(3))));
    v
}

/// The Object tab of an object's menu: duplicate and delete; for a mesh,
/// edit mode and shading; then the rename panel when the operator is
/// registered (under `rename`, its label).
pub open spec fn object_tab<I>(items: Seq<Item<I>>, is_mesh: bool, rename: Option<Seq<char>>) -> bool {
    let base = if is_mesh { 7int } else { 3int };
    &&& items.len() == base + (if rename is Some { 1int } else { 0int })
    &&& is_act(items[0], "Duplicate"@, "object.duplicate"@)
    &&& is_act(items[1], "Delete"@, "object.delete"@)
    &&& items[2] is Separator
    &&& is_mesh ==> {
        &&& is_act_with(items[3], "Edit Mode"@, "object.mode_set"@, "mode"@, Value::Enum(1))
        &&& is_act_with(items[4], "Shade Smooth"@, "object.shade"@, "smooth"@, Value::Bool(true))
        &&& is_act_with(items[5], "Shade Flat"@, "object.shade"@, "smooth"@, Value::Bool(false))
        &&& items[6] is Separator
    }
    &&& match rename {
        Some(l) => items[base] matches Item::OpPanel { op, label, applied } && op@ == "object.rename"@ && label@ == l && !applied,
        None => true,
    }
}

/// The Edit tab of a mesh menu: verbs only, each run with its defaults.
pub open spec fn edit_tab<I>(items: Seq<Item<I>>) -> bool {
    &&& items.len() == 10
    &&& is_act(items[0], "Extrude"@, "mesh.extrude"@)
    &&& is_act(items[1], "Subdivide"@, "mesh.subdivide"@)
    &&& is_act(items[2], "Merge by Distance"@, "mesh.merge_by_distance"@)
    &&& items[3] is Separator
    &&& items[4] matches Item::Sub { label, items: d } && label@ == "Delete"@ && d@.len() == 4
        && act_with(d@[0], "Vertices"@, "mesh.delete"@, "kind"@, Value::Enum(0))
        && act_with(d@[1], "Edges"@, "mesh.delete"@, "kind"@, Value::Enum(1))
        && act_with(d@[2], "Faces"@, "mesh.delete"@, "kind"@, Value::Enum(2))
        && act_with(d@[3], "Only Faces"@, "mesh.delete"@, "kind"@, Value::Enum(3))
    &&& items[5] matches Item::Sub { label, items: d } && label@ == "Dissolve"@ && d@.len() == 3
        && act_with(d@[0], "Vertices"@, "mesh.dissolve"@, "kind"@, Value::Enum(0))
        && act_with(d@[1], "Edges"@, "mesh.dissolve"@, "kind"@, Value::Enum(1))
        && act_with(d@[2], "Faces"@, "mesh.dissolve"@, "kind"@, Value::Enum(2))
    &&& is_act(items[6], "Flip Normals"@, "mesh.flip_normals"@)
    &&& is_act(items[7], "Recalculate Normals"@, "mesh.normals_make_consistent"@)
    &&& items[8] is Separator
    &&& is_act_with(items[9], "Object Mode"@, "object.mode_set"@, "mode"@, Value::Enum(0))
}

fn edit_items<I>() -> (v: Vec<Item<I>>)
    ensures
        edit_tab(v@),
{
    let mut v: Vec<Item<I>> = Vec::new();
    v.push(Item::Action(action("Extrude", "mesh.extrude")));
    v.push(Item::Action(action("Subdivide", "mesh.subdivide")));
    v.push(Item::Action(action("Merge by Distance", "mesh.merge_by_distance")));
    v.push(Item::Separator);
    let mut del: Vec<Action> = Vec::new();
    del.push(action_with("Vertices", "mesh.delete", "kind", Value::Enum(0)));
    del.push(action_with("Edges", "mesh.delete", "kind", Value::Enum(1)));
    del.push(action_with("Faces", "mesh.delete", "kind", Value::Enum(2)));
    del.push(action_with("Only Faces", "mesh.delete", "kind", Value::Enum(3)));
    v.push(Item::Sub { label: "Delete".to_owned(), items: del });
    let mut dis: Vec<Action> = Vec::new();
    dis.push(action_with("Vertices", "mesh.dissolve", "kind", Value::Enum(0)));
    dis.push(action_with("Edges", "mesh.dissolve", "kind", Value::Enum(1)));
    dis.push(action_with("Faces", "mesh.dissolve", "kind", Value::Enum(2)));
    v.push(Item::Sub { label: "Dissolve".to_owned(), items: dis });
    v.push(Item::Action(action("Flip Normals", "mesh.flip_normals")));
    v.push(Item::Action(action("Recalculate Normals", "mesh.normals_make_consistent")));
    v.push(Item::Separator);
    v.push(Item::Action(action_with("Object Mode", "object.mode_set", "mode", Value::Enum(0))));
    v
}

/// The view tools of a menu opened over a viewport showing `view`.
pub open spec fn view_tools_are(t: Seq<Tool>, view: ViewFlags) -> bool {
    &&& t.len() == 4
    &&& tool_sets(t[0], Icon::Solid, !view.wire, "view3d.shading"@, "wire"@, Value::Bool(false))
    &&& tool_sets(t[1], Icon::Wire, view.wire, "view3d.shading"@, "wire"@, Value::Bool(true))
    &&& tool_is(t[2], Icon::Grid, view.grid, "view3d.toggle_grid"@)
    &&& tool_is(t[3], Icon::Frame, false, "view3d.frame_all"@)
}

/// The title of a mesh menu: the element kind (or "Mesh") and how many
/// vertices are selected.
pub open spec fn mesh_title(kind: Option<SelectMode>, selected: nat) -> Seq<char> {
    let head = match kind {
        Some(k) => k.label_spec(),
        None => "Mesh"@,
    };
    head + " · "@ + decimal(selected) + " selected"@
}

/// The menu `build` makes for `context`.
pub open spec fn built<I, P>(m: ContextMenu<I, P>, context: MenuContext<I>, facts: MenuFacts, rename: Option<Seq<char>>, pos: P, view: ViewFlags) -> bool {
    &&& m.context == context
    &&& m.tab == 0
    &&& m.pos == pos
    &&& m.open_sub is None
    &&& match context {
        MenuContext::Scene => {
            &&& m.title@ == "Scene"@
            &&& m.width == Width::Narrow
            &&& m.tabs@.len() == 3
            &&& m.tabs@[0].label@ == "Add"@ && add_tab(m.tabs@[0].items@)
            &&& m.tabs@[1].label@ == "View"@ && view_tab(m.tabs@[1].items@)
            &&& m.tabs@[2].label@ == "Select"@ && select_tab(m.tabs@[2].items@, "object.select_all"@)
            &&& m.tools@.len() == 5
            &&& tool_sets(m.tools@[0], Icon::Plus, false, "wm.call_menu"@, "menu"@, m.tools@[0].overrides@[0].1)
            &&& m.tools@[0].overrides@[0].1 matches Value::Str(s) && s@ == "add"@
            &&& view_tools_are(m.tools@.drop_first(), view)
        },
        MenuContext::Object(id) => {
            &&& m.title@ == match facts.object_name {
                Some(n) => n@,
                None => "Object"@,
            }
            &&& m.width == Width::Wide
            &&& m.tabs@.len() == 2
            &&& m.tabs@[0].label@ == "Object"@ && object_tab(m.tabs@[0].items@, facts.object_is_mesh, rename)
            &&& m.tabs@[1].label@ == "Transform"@ && m.tabs@[1].items@.len() == 1 && m.tabs@[1].items@[0] == Item::<I>::ObjectProps(id)
            &&& m.tools@.len() == if facts.object_is_mesh { 5int } else { 4int }
            &&& view_tools_are(m.tools@.take(4), view)
            &&& facts.object_is_mesh ==> tool_sets(m.tools@[4], Icon::EditMode, false, "object.mode_set"@, "mode"@, Value::Enum(1))
        },
        MenuContext::Mesh(_) | MenuContext::Element { .. } => {
            &&& m.title@ == mesh_title(
                match context {
                    MenuContext::Element { kind, .. } => Some(kind),
                    _ => None,
                },
                facts.selected as nat,
            )
            &&& m.width == Width::Wide
            &&& m.tabs@.len() == 2
            &&& m.tabs@[0].label@ == "Edit"@ && edit_tab(m.tabs@[0].items@)
            &&& m.tabs@[1].label@ == "Select"@ && select_tab(m.tabs@[1].items@, "mesh.select_all"@)
            &&& m.tools@.len() == 7
            &&& tool_sets(m.tools@[0], Icon::Vertex, facts.select_mode == SelectMode::Vertex, "mesh.select_mode"@, "mode"@, Value::Enum(0))
            &&& tool_sets(m.tools@[1], Icon::Edge, facts.select_mode == SelectMode::Edge, "mesh.select_mode"@, "mode"@, Value::Enum(1))
            &&& tool_sets(m.tools@[2], Icon::Face, facts.select_mode == SelectMode::Face, "mesh.select_mode"@, "mode"@, Value::Enum(2))
            &&& view_tools_are(m.tools@.skip(3), view)
        },
    }
}

fn tab<I>(label: &str, items: Vec<Item<I>>) -> (t: Tab<I>)
    ensures
        t.label@ == label@,
        t.items == items,
{
    Tab { label: label.to_owned(), items }
}

impl<I: Copy, P> ContextMenu<I, P> {
    /// The menu for `context`, opened at `pos` over a viewport showing
    /// `view`; the rename panel is offered when `registry` has the rename
    /// operator.
    pub fn build(context: MenuContext<I>, facts: &MenuFacts, registry: &Registry, pos: P, view: ViewFlags) -> (m: Self)
        ensures
            built(
                m,
                context,
                *facts,
                match registry.get_spec("object.rename"@) {
                    Some(o) => Some(o.label@),
                    None => None,
                },
                pos,
                view,
            ),
    {
        let mut tools = view_tools(view.wire, view.grid);
        let ghost vt = tools@;
        match context {
            MenuContext::Scene => {
                let mut tabs: Vec<Tab<I>> = Vec::new();
                tabs.push(tab("Add", add_items()));
                tabs.push(tab("View", view_items()));
                tabs.push(tab("Select", select_items("object.select_all")));
                let plus = tool_with(Icon::Plus, false, "wm.call_menu", "menu", Value::Str("add".to_owned()));
                tools.insert(0, plus);
                proof {
                    assert(tools@.drop_first() =~= vt);
                }
                ContextMenu { context, title: String::from_str("Scene"), tabs, tab: 0, tools, pos, width: Width::Narrow, open_sub: None }
            },
            MenuContext::Object(id) => {
                let title = match &facts.object_name {
                    Some(n) => n.clone(),
                    None => String::from_str("Object"),
                };
                let mut actions: Vec<Item<I>> = Vec::new();
                actions.push(Item::Action(action("Duplicate", "object.duplicate")));
                actions.push(Item::Action(action("Delete", "object.delete")));
                actions.push(Item::Separator);
                if facts.object_is_mesh {
                    actions.push(Item::Action(action_with("Edit Mode", "object.mode_set", "mode", Value::Enum(1))));
                    actions.push(Item::Action(action_with("Shade Smooth", "object.shade", "smooth", Value::Bool(true))));
                    actions.push(Item::Action(action_with("Shade Flat", "object.shade", "smooth", Value::Bool(false))));
                    actions.push(Item::Separator);
                    tools.push(tool_with(Icon::EditMode, false, "object.mode_set", "mode", Value::Enum(1)));
                }
                match registry.get("object.rename") {
                    Some(info) => {
                        actions.push(Item::OpPanel { op: "object.rename".to_owned(), label: info.label.to_owned(), applied: false });
                    },
                    None => {},
                }
                let mut transform: Vec<Item<I>> = Vec::new();
                transform.push(Item::ObjectProps(id));
                let mut tabs: Vec<Tab<I>> = Vec::new();
                tabs.push(tab("Object", actions));
                tabs.push(tab("Transform", transform));
                proof {
                    assert(tools@.take(4) =~= vt);
                }
                ContextMenu { context, title, tabs, tab: 0, tools, pos, width: Width::Wide, open_sub: None }
            },
            _ => {
                let mut title = match context {
                    MenuContext::Element { kind, .. } => String::from_str(kind.label()),
                    _ => String::from_str("Mesh"),
                };
                title.append(" · ");
                push_decimal(&mut title, facts.selected);
                title.append(" selected");
                let mut tabs: Vec<Tab<I>> = Vec::new();
                tabs.push(tab("Edit", edit_items()));
                tabs.push(tab("Select", select_items("mesh.select_all")));
                let mode = facts.select_mode;
                tools.insert(0, tool_with(Icon::Face, mode == SelectMode::Face, "mesh.select_mode", "mode", Value::Enum(2)));
                tools.insert(0, tool_with(Icon::Edge, mode == SelectMode::Edge, "mesh.select_mode", "mode", Value::Enum(1)));
                tools.insert(0, tool_with(Icon::Vertex, mode == SelectMode::Vertex, "mesh.select_mode", "mode", Value::Enum(0)));
                proof {
                    assert(tools@.skip(3) =~= vt);
                }
                ContextMenu { context, title, tabs, tab: 0, tools, pos, width: Width::Wide, open_sub: None }
            },
        }
    }
}

/// What the pointer hit, as the menu sees it: nothing, an object, or an
/// element of a mesh (`I` identifies objects and meshes).
#[derive(Clone, Copy, Debug, PartialEq, Eq)]
pub enum Pick<I> {
    Nothing,
    Object(I),
    Vert(I),
    Edge(I),
    Face(I),
}

/// The menu for what a pick returned, `editing` being the mesh the active
/// object is editing, if any: in object mode an object's menu or the
/// scene's; in edit mode an element's menu or the mesh's.
pub fn context_for<I: Copy>(editing: Option<I>, pick: Pick<I>) -> (c: MenuContext<I>)
    ensures
        c == match (pick, editing) {
            (Pick::Object(id), None) => MenuContext::Object(id),
            (Pick::Vert(m), Some(_)) => MenuContext::Element { mesh: m, kind: SelectMode::Vertex },
            (Pick::Edge(m), Some(_)) => MenuContext::Element { mesh: m, kind: SelectMode::Edge },
            (Pick::Face(m), Some(_)) => MenuContext::Element { mesh: m, kind: SelectMode::Face },
            (_, Some(m)) => MenuContext::Mesh(m),
            _ => MenuContext::Scene,
        },
{
    match (pick, editing) {
        (Pick::Object(id), None) => MenuContext::Object(id),
        (Pick::Vert(m), Some(_)) => MenuContext::Element { mesh: m, kind: SelectMode::Vertex },
        (Pick::Edge(m), Some(_)) => MenuContext::Element { mesh: m, kind: SelectMode::Edge },
        (Pick::Face(m), Some(_)) => MenuContext::Element { mesh: m, kind: SelectMode::Face },
        (_, Some(m)) => MenuContext::Mesh(m),
        _ => MenuContext::Scene,
    }
}

} // verus!
