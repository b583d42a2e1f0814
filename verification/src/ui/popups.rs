//! Shell-level popups: named menus, the command palette, and the path
//! dialog; which one a request opens. Drawing them is the host's.

use vstd::prelude::*;
use vstd::string::*;

use crate::context::UiRequest;
use crate::keymap::Value;
use crate::registry::{is_white, is_whitespace};

verus! {

/// One entry of a named menu: its label, and the operator it runs with its
/// property overrides.
pub struct MenuItem {
    pub label: String,
    pub op: String,
    pub overrides: Vec<(String, Value)>,
}

/// A popup over everything; `P` is where a menu opens (the pointer).
pub enum Popup<P> {
    Menu { title: String, items: Vec<MenuItem>, pos: P },
    Palette { query: String, selected: usize },
    Path { op: String, save: bool, text: String },
}

/// `m` is labelled `label` and runs `op`, setting `field` to `v`.
pub open spec fn item_is(m: MenuItem, label: Seq<char>, op: Seq<char>, field: Seq<char>, v: Value) -> bool {
    &&& m.label@ == label
    &&& m.op@ == op
    &&& m.overrides@.len() == 1
    &&& m.overrides@[0].0@ == field
    &&& m.overrides@[0].1 == v
}

fn item(label: &str, op: &str, field: &str, v: Value) -> (m: MenuItem)
    ensures
        item_is(m, label@, op@, field@, v),
{
    let mut overrides: Vec<(String, Value)> = Vec::new();
    overrides.push((field.to_owned(), v));
    MenuItem { label: label.to_owned(), op: op.to_owned(), overrides }
}

/// The Add menu: one entry per primitive, each adding it.
pub open spec fn add_menu(items: Seq<MenuItem>) -> bool {
    &&& items.len() == 6
    &&& item_is(items[0], "Plane"@, "object.add_primitive"@, "kind"@, Value::Enum(0))
    &&& item_is(items[1], "Cube"@, "object.add_primitive"@, "kind"@, Value::Enum(1))
    &&& item_is(items[2], "UV Sphere"@, "object.add_primitive"@, "kind"@, Value::Enum(2))
    &&& item_is(items[3], "Cylinder"@, "object.add_primitive"@, "kind"@, Value::Enum(3))
    &&& items[4].label@ == "Grid"@ && items[4].op@ == "object.add_primitive"@
    &&& items[4].overrides@.len() == 2
    &&& items[4].overrides@[0].0@ == "kind"@ && items[4].overrides@[0].1 == Value::Enum(4)
    &&& items[4].overrides@[1].0@ == "segments"@ && items[4].overrides@[1].1 == Value::I64(10)
    &&& item_is(items[5], "Circle"@, "object.add_primitive"@, "kind"@, Value::Enum(5))
}

/// The mesh Delete menu: deleting or dissolving each element kind.
pub open spec fn mesh_delete_menu(items: Seq<MenuItem>) -> bool {
    &&& items.len() == 7
    &&& item_is(items[0], "Vertices"@, "mesh.delete"@, "kind"@, Value::Enum(0))
    &&& item_is(items[1], "Edges"@, "mesh.delete"@, "kind"@, Value::Enum(1))
    &&& item_is(items[2], "Faces"@, "mesh.delete"@, "kind"@, Value::Enum(2))
    &&& item_is(items[3], "Only Faces"@, "mesh.delete"@, "kind"@, Value::Enum(3))
    &&& item_is(items[4], "Dissolve Vertices"@, "mesh.dissolve"@, "kind"@, Value::Enum(0))
    &&& item_is(items[5], "Dissolve Edges"@, "mesh.dissolve"@, "kind"@, Value::Enum(1))
    &&& item_is(items[6], "Dissolve Faces"@, "mesh.dissolve"@, "kind"@, Value::Enum(2))
}

fn add_items() -> (v: Vec<MenuItem>)
    ensures
        add_menu(v@),
{
    let mut v: Vec<MenuItem> = Vec::new();
    v.push(item("Plane", "object.add_primitive", "kind", Value::Enum(0)));
    v.push(item("Cube", "object.add_primitive", "kind", Value::Enum(1)));
    v.push(item("UV Sphere", "object.add_primitive", "kind", Value::Enum(2)));
    v.push(item("Cylinder", "object.add_primitive", "kind", Value::Enum(3)));
    let mut grid = item("Grid", "object.add_primitive", "kind", Value::Enum(4));
    grid.overrides.push(("segments".to_owned(), Value::I64(10)));
    v.push(grid);
    v.push(item("Circle", "object.add_primitive", "kind", Value::Enum(5)));
    v
}

fn mesh_delete_items() -> (v: Vec<MenuItem>)
    ensures
        mesh_delete_menu(v@),
{
    let mut v: Vec<MenuItem> = Vec::new();
    v.push(item("Vertices", "mesh.delete", "kind", Value::Enum(0)));
    v.push(item("Edges", "mesh.delete", "kind", Value::Enum(1)));
    v.push(item("Faces", "mesh.delete", "kind", Value::Enum(2)));
    v.push(item("Only Faces", "mesh.delete", "kind", Value::Enum(3)));
    v.push(item("Dissolve Vertices", "mesh.dissolve", "kind", Value::Enum(0)));
    v.push(item("Dissolve Edges", "mesh.dissolve", "kind", Value::Enum(1)));
    v.push(item("Dissolve Faces", "mesh.dissolve", "kind", Value::Enum(2)));
    v
}

/// The menus Prism knows by name, opening at `pos`: "add" and
/// "mesh_delete".
pub fn menu<P>(name: &str, pos: P) -> (r: Option<Popup<P>>)
    ensures
        name@ == "add"@ ==> (r matches Some(Popup::Menu { title, items, pos: p }) && title@ == "Add"@ && add_menu(items@) && p == pos),
        name@ == "mesh_delete"@ ==> (r matches Some(Popup::Menu { title, items, pos: p }) && title@ == "Delete"@
            && mesh_delete_menu(items@) && p == pos),
        name@ != "add"@ && name@ != "mesh_delete"@ ==> r is None,
{
    proof {
        reveal_strlit("add");
        reveal_strlit("mesh_delete");
        assert("add"@ != "mesh_delete"@) by {
            assert("add"@.len() != "mesh_delete"@.len());
        }
    }
    if crate::registry::str_eq(name, "add") {
        Some(Popup::Menu { title: String::from_str("Add"), items: add_items(), pos })
    } else if crate::registry::str_eq(name, "mesh_delete") {
        Some(Popup::Menu { title: String::from_str("Delete"), items: mesh_delete_items(), pos })
    } else {
        None
    }
}

/// What the path dialog starts with: the suggestion, else the document's
/// path, else `untitled.prism`.
pub open spec fn path_text(suggest: Option<Seq<char>>, doc_path: Option<Seq<char>>) -> Seq<char> {
    match suggest {
        Some(s) => s,
        None => match doc_path {
            Some(p) => p,
            None => "untitled.prism"@,
        },
    }
}

/// `p` is the popup `r` opens at `pointer` for a document at `doc_path`.
pub open spec fn popup_for_post<P>(r: UiRequest, pointer: P, doc_path: Option<Seq<char>>, p: Option<Popup<P>>) -> bool {
    match r {
        UiRequest::Menu(name) => {
            &&& name@ == "add"@ ==> (p matches Some(Popup::Menu { title, items, pos }) && title@ == "Add"@ && add_menu(items@) && pos == pointer)
            &&& name@ == "mesh_delete"@ ==> (p matches Some(Popup::Menu { title, items, pos }) && title@ == "Delete"@
                && mesh_delete_menu(items@) && pos == pointer)
            &&& name@ != "add"@ && name@ != "mesh_delete"@ ==> p is None
        },
        UiRequest::Palette => p matches Some(Popup::Palette { query, selected }) && query@.len() == 0 && selected == 0,
        UiRequest::PathDialog { op, save, suggest } => p matches Some(Popup::Path { op: o, save: s, text })
            && o == op && s == save && text@ == path_text(
            match suggest {
                Some(x) => Some(x@),
                None => None,
            },
            doc_path,
        ),
        _ => p is None,
    }
}

/// The popup a request opens, at `pointer` for menus: a named menu, the
/// palette (empty query, first entry), or the path dialog. Other requests
/// open none.
pub fn popup_for<P>(r: UiRequest, pointer: P, doc_path: Option<&str>) -> (p: Option<Popup<P>>)
    ensures
        popup_for_post(
            r,
            pointer,
            match doc_path {
                Some(x) => Some(x@),
                None => None,
            },
            p,
        ),
{
    match r {
        UiRequest::Menu(name) => menu(name.as_str(), pointer),
        UiRequest::Palette => Some(Popup::Palette { query: String::new(), selected: 0 }),
        UiRequest::PathDialog { op, save, suggest } => {
            let text = match suggest {
                Some(s) => s,
                None => match doc_path {
                    Some(d) => d.to_owned(),
                    None => String::from_str("untitled.prism"),
                },
            };
            Some(Popup::Path { op, save, text })
        },
        _ => None,
    }
}

// ---------------------------------------------------------------------------
// One frame of an open popup
// ---------------------------------------------------------------------------

/// An operator a popup wants run, with its property overrides.
pub type Command = (String, Vec<(String, Value)>);

/// What happened to an open popup this frame, as the host's widgets saw
/// it.
pub struct PopupInput {
    /// Escape was pressed.
    pub escape: bool,
    /// A press landed outside the popup (the popup claims it).
    pub outside_press: bool,
    /// A menu item, or one of the first eleven palette entries, was
    /// clicked.
    pub clicked: Option<usize>,
    pub arrow_down: bool,
    pub arrow_up: bool,
    /// The text field's new text, when it was edited.
    pub edited: Option<String>,
    /// Enter in the text field.
    pub committed: bool,
    /// The path dialog's Save / Open button.
    pub confirm: bool,
    /// The path dialog's Cancel button.
    pub cancel: bool,
}

/// `s` without its leading whitespace.
pub open spec fn trim_start(s: Seq<char>) -> Seq<char>
    decreases s.len(),
{
    if s.len() > 0 && is_white(s[0]) {
        trim_start(s.drop_first())
    } else {
        s
    }
}

/// `s` without its trailing whitespace.
pub open spec fn trim_end(s: Seq<char>) -> Seq<char>
    decreases s.len(),
{
    if s.len() > 0 && is_white(s.last()) {
        trim_end(s.drop_last())
    } else {
        s
    }
}

/// What `str::trim` gives: `s` without leading and trailing whitespace.
pub open spec fn trim_spec(s: Seq<char>) -> Seq<char> {
    trim_end(trim_start(s))
}

/// `s` without leading and trailing whitespace (what `str::trim` does).
pub fn trim(s: &str) -> (r: String)
    ensures
        r@ == trim_spec(s@),
{
    let n = s.unicode_len();
    let mut i: usize = 0;
    assert(s@.subrange(0, n as int) =~= s@);
    while i < n && is_whitespace(s.get_char(i))
        invariant
            n == s@.len(),
            i <= n,
            trim_start(s@) == trim_start(s@.subrange(i as int, n as int)),
        decreases n - i,
    {
        assert(s@.subrange(i as int, n as int).drop_first() =~= s@.subrange(i + 1, n as int));
        i = i + 1;
    }
    assert(trim_start(s@.subrange(i as int, n as int)) == s@.subrange(i as int, n as int));
    let mut j: usize = n;
    while j > i && is_whitespace(s.get_char(j - 1))
        invariant
            n == s@.len(),
            i <= j <= n,
            trim_spec(s@) == trim_end(s@.subrange(i as int, j as int)),
        decreases j - i,
    {
        assert(s@.subrange(i as int, j as int).drop_last() =~= s@.subrange(i as int, j - 1));
        j = j - 1;
    }
    let t = s.substring_char(i, j);
    t.to_owned()
}

/// The palette's selection after a frame: arrows move it within the
/// entries (down stops at the last, up at the first), and editing the query
/// sends it back to the first entry.
pub open spec fn palette_selected(selected: int, n: int, input: PopupInput) -> int {
    let s1 = if input.arrow_down && n > 0 {
        if selected + 1 <= n - 1 { selected + 1 } else { n - 1 }
    } else {
        selected
    };
    let s2 = if input.arrow_up {
        if s1 > 0 { s1 - 1 } else { 0 }
    } else {
        s1
    };
    if input.edited is Some { 0 } else { s2 }
}

/// The operators the palette runs this frame, by id: the selected entry on
/// Enter, then a clicked entry among the first eleven shown.
pub open spec fn palette_runs(selected: int, entries: Seq<(String, String)>, input: PopupInput) -> Seq<String> {
    let n = entries.len() as int;
    let s = palette_selected(selected, n, input);
    let shown = if n < 11 { n } else { 11 };
    (if input.committed && s < n { seq![entries[s].0] } else { Seq::empty() }) + match input.clicked {
        Some(c) => if (c as int) < shown { seq![entries[c as int].0] } else { Seq::empty() },
        None => Seq::empty(),
    }
}

/// The path dialog's text after a frame.
pub open spec fn edited_text(old: String, input: PopupInput) -> String {
    match input.edited {
        Some(t) => t,
        None => old,
    }
}

/// The path dialog runs its operator: Enter or its button, with text that
/// is not blank.
pub open spec fn path_fires(text: String, input: PopupInput) -> bool {
    (input.committed || input.confirm) && trim_spec(edited_text(text, input)@).len() > 0
}

/// Whether the popup closes this frame: Escape, a press outside it, Cancel,
/// or having run something.
pub open spec fn popup_closes<P>(p: Popup<P>, input: PopupInput, entries: Seq<(String, String)>) -> bool {
    input.escape || input.outside_press || match p {
        Popup::Menu { items, .. } => input.clicked matches Some(c) && (c as int) < items@.len(),
        Popup::Palette { selected, .. } => palette_runs(selected as int, entries, input).len() > 0,
        Popup::Path { text, .. } => input.cancel || path_fires(text, input),
    }
}

fn copy_overrides(v: &Vec<(String, Value)>) -> (r: Vec<(String, Value)>)
    ensures
        r@ == v@,
{
    let mut r: Vec<(String, Value)> = Vec::new();
    let mut k: usize = 0;
    while k < v.len()
        invariant
            k <= v@.len(),
            r@ == v@.take(k as int),
        decreases v@.len() - k,
    {
        let (key, val) = &v[k];
        r.push((key.clone(), val.clone()));
        assert(r@ =~= v@.take(k + 1));
        k = k + 1;
    }
    assert(v@.take(v@.len() as int) =~= v@);
    r
}

/// What one frame of `p` gives, as `popup_step` returns it: the popup it
/// becomes, the commands it runs and whether it closes.
pub open spec fn popup_step_post<P>(p: Popup<P>, input: PopupInput, entries: Seq<(String, String)>, r: (Popup<P>, Vec<Command>, bool)) -> bool {
    &&& r.2 == popup_closes(p, input, entries)
    &&& match p {
        Popup::Menu { items, .. } => {
            &&& r.0 == p
            &&& match input.clicked {
                Some(c) if (c as int) < items@.len() => r.1@.len() == 1 && r.1@[0].0 == items@[c as int].op
                    && r.1@[0].1@ == items@[c as int].overrides@,
                _ => r.1@.len() == 0,
            }
        },
        Popup::Palette { query, selected } => {
            let runs = palette_runs(selected as int, entries, input);
            &&& r.0 matches Popup::Palette { query: q, selected: s }
                && q == edited_text(query, input)
                && s as int == palette_selected(selected as int, entries.len() as int, input)
            &&& r.1@.len() == runs.len()
            &&& forall|k: int| 0 <= k < runs.len() ==> #[trigger] r.1@[k].0 == runs[k] && r.1@[k].1@.len() == 0
        },
        Popup::Path { op, save, text } => {
            &&& r.0 matches Popup::Path { op: o, save: s, text: t } && o == op && s == save && t == edited_text(text, input)
            &&& if path_fires(text, input) {
                &&& r.1@.len() == 1
                &&& r.1@[0].0 == op
                &&& r.1@[0].1@.len() == 1
                &&& r.1@[0].1@[0].0@ == "path"@
                &&& r.1@[0].1@[0].1 matches Value::Str(v) && v@ == trim_spec(edited_text(text, input)@)
            } else {
                r.1@.len() == 0
            }
        },
    }
}

/// Enter in the palette runs the entry its selection shows after the
/// frame: whatever the arrows or an edit did to the selection, the first
/// command is the id of the entry at the returned selection (when there is
/// one), with no overrides, and the palette closes.
pub proof fn law_enter_runs_shown_entry<P>(p: Popup<P>, input: PopupInput, entries: Seq<(String, String)>, r: (Popup<P>, Vec<Command>, bool))
    requires
        popup_step_post(p, input, entries, r),
        p is Palette,
        input.committed,
    ensures
        r.0 matches Popup::Palette { selected: s, .. } && ((s as int) < entries.len() ==> {
            &&& r.1@.len() >= 1
            &&& r.1@[0].0 == entries[s as int].0
            &&& r.1@[0].1@.len() == 0
            &&& r.2
        }),
{
    match p {
        Popup::Palette { query, selected } => {
            let runs = palette_runs(selected as int, entries, input);
            if let Popup::Palette { selected: s, .. } = r.0 {
                if (s as int) < entries.len() {
                    assert(runs[0] == entries[s as int].0);
                    assert(runs.len() >= 1);
                    assert(r.1@[0].0 == runs[0]);
                }
            }
        },
        _ => {},
    }
}

/// A click on one of the first eleven palette entries (without Enter) runs
/// exactly that entry and closes the palette; a click further down does
/// nothing.
pub proof fn law_click_runs_clicked_entry<P>(p: Popup<P>, input: PopupInput, entries: Seq<(String, String)>, r: (Popup<P>, Vec<Command>, bool), c: usize)
    requires
        popup_step_post(p, input, entries, r),
        p is Palette,
        !input.committed,
        input.clicked == Some(c),
    ensures
        (c as int) < entries.len() && c < 11 ==> r.1@.len() == 1 && r.1@[0].0 == entries[c as int].0 && r.1@[0].1@.len() == 0 && r.2,
        !((c as int) < entries.len() && c < 11) ==> r.1@.len() == 0,
{
    match p {
        Popup::Palette { query, selected } => {
            let runs = palette_runs(selected as int, entries, input);
            if (c as int) < entries.len() && c < 11 {
                assert(runs[0] == entries[c as int].0);
                assert(r.1@[0].0 == runs[0]);
            }
        },
        _ => {},
    }
}

/// The palette's selection after a frame, without an edit: the down arrow
/// moves it one entry on but not past the last, the up arrow one entry back
/// but not before the first, and with neither it stays. Editing the query
/// sends it to the first entry. A selection within the entries stays
/// within them.
pub proof fn law_palette_selection<P>(p: Popup<P>, input: PopupInput, entries: Seq<(String, String)>, r: (Popup<P>, Vec<Command>, bool), sel: usize)
    requires
        popup_step_post(p, input, entries, r),
        p matches Popup::Palette { selected, .. } && selected == sel,
    ensures
        r.0 matches Popup::Palette { selected: s, .. } && {
            let n = entries.len() as int;
            &&& input.edited is Some ==> s == 0
            &&& input.edited is None && input.arrow_down && !input.arrow_up && n > 0 ==> s as int == (if sel + 1 < n { sel + 1 } else { n - 1 })
            &&& input.edited is None && input.arrow_up && !input.arrow_down ==> s as int == (if sel > 0 { sel - 1 } else { 0 })
            &&& input.edited is None && !input.arrow_up && !input.arrow_down ==> s == sel
            &&& (sel as int) < n ==> (s as int) < n
        },
{
}

/// One frame of an open popup: what it becomes, the operators it wants run
/// (in order), and whether it closes. A menu runs a clicked item; the
/// palette moves its selection with the arrows and runs the selected entry
/// on Enter or a clicked one; the path dialog runs its operator with the
/// trimmed text as `path` when that text is not blank.
pub fn popup_step<P>(p: Popup<P>, input: PopupInput, entries: &[(String, String)]) -> (r: (Popup<P>, Vec<Command>, bool))
    ensures
        popup_step_post(p, input, entries@, r),
{
    let mut cmds: Vec<Command> = Vec::new();
    let mut close = input.escape || input.outside_press;
    let PopupInput { escape, outside_press, clicked, arrow_down, arrow_up, edited, committed, confirm, cancel } = input;
    match p {
        Popup::Menu { title, items, pos } => {
            if let Some(c) = clicked {
                if c < items.len() {
                    let item = &items[c];
                    cmds.push((item.op.clone(), copy_overrides(&item.overrides)));
                    close = true;
                }
            }
            (Popup::Menu { title, items, pos }, cmds, close)
        },
        Popup::Palette { query, selected } => {
            let n = entries.len();
            let mut sel = selected;
            if arrow_down && n > 0 {
                sel = if sel < n - 1 { sel + 1 } else { n - 1 };
            }
            if arrow_up {
                sel = if sel > 0 { sel - 1 } else { 0 };
            }
            let q = match edited {
                Some(t) => {
                    sel = 0;
                    t
                },
                None => query,
            };
            let ghost runs = palette_runs(selected as int, entries@, input);
            if committed && sel < n {
                cmds.push((entries[sel].0.clone(), Vec::new()));
                close = true;
            }
            let shown = if n < 11 { n } else { 11 };
            if let Some(c) = clicked {
                if c < shown {
                    cmds.push((entries[c].0.clone(), Vec::new()));
                    close = true;
                }
            }
            proof {
                assert(sel as int == palette_selected(selected as int, n as int, input));
                assert(cmds@.len() == runs.len());
            }
            (Popup::Palette { query: q, selected: sel }, cmds, close)
        },
        Popup::Path { op, save, text } => {
            let t = match edited {
                Some(e) => e,
                None => text,
            };
            let go = committed || confirm;
            if cancel {
                close = true;
            }
            let trimmed = trim(t.as_str());
            if go && trimmed.unicode_len() > 0 {
                let mut ov: Vec<(String, Value)> = Vec::new();
                ov.push(("path".to_owned(), Value::Str(trimmed)));
                cmds.push((op.clone(), ov));
                close = true;
            }
            (Popup::Path { op, save, text: t }, cmds, close)
        },
    }
}

} // verus!
