//! Keymaps are data: a trigger, an operator id, property overrides. Grouped
//! into named maps; resolution walks the maps for the current context chain
//! and fires the first item whose operator polls true.

use vstd::prelude::*;

use crate::input::{Event, Key, Modifiers, MouseButton};

verus! {

/// A property value a key binding sets on its operator.
#[derive(Debug, PartialEq, Eq)]
pub enum Value {
    Bool(bool),
    I64(i64),
    Enum(u32),
    Str(String),
}

impl Clone for Value {
    fn clone(&self) -> (r: Value)
        ensures
            r == *self,
    {
        match self {
            Value::Bool(b) => Value::Bool(*b),
            Value::I64(v) => Value::I64(*v),
            Value::Enum(v) => Value::Enum(*v),
            Value::Str(s) => Value::Str(s.clone()),
        }
    }
}

#[derive(Clone, Copy, Debug, PartialEq, Eq, Structural)]
pub struct Trigger {
    pub key: Option<Key>,
    pub button: Option<MouseButton>,
    pub mods: Modifiers,
    /// Fire on press (else on release).
    pub press: bool,
    /// Only on a double click (buttons).
    pub double: bool,
}

/// ASCII letters folded to lower case; everything else unchanged.
pub open spec fn ascii_lower(c: char) -> char {
    if 'A' <= c <= 'Z' {
        ((c as u32) + 32) as char
    } else {
        c
    }
}

/// Keys are equal, letters regardless of ASCII case.
pub open spec fn key_eq_spec(a: Key, b: Key) -> bool {
    match (a, b) {
        (Key::Char(x), Key::Char(y)) => ascii_lower(x) == ascii_lower(y),
        _ => a == b,
    }
}

/// Whether `t` fires on `ev`: the same key (letters regardless of case) or
/// button, the same press or release, exactly the same modifiers.
pub open spec fn trigger_matches(t: Trigger, ev: Event) -> bool {
    match ev {
        Event::Key { key, pressed, mods, .. } => t.key matches Some(k) && key_eq_spec(k, key) && pressed == t.press && mods == t.mods,
        Event::Button { button, pressed, mods, .. } => t.button == Some(button) && pressed == t.press && mods == t.mods,
        _ => false,
    }
}

pub fn to_ascii_lower(c: char) -> (r: char)
    ensures
        r == ascii_lower(c),
{
    if 'A' <= c && c <= 'Z' {
        let u = c as u32 + 32;
        assert(0x61 <= u <= 0x7A);
        char_from_ascii(u)
    } else {
        c
    }
}

fn char_from_ascii(u: u32) -> (r: char)
    requires
        u < 0x80,
    ensures
        r == u as char,
{
    let b = u as u8;
    b as char
}

/// Letters match case-insensitively so Shift+A binds without knowing
/// whether the platform reports `a` or `A`.
pub fn key_eq(a: Key, b: Key) -> (r: bool)
    ensures
        r == key_eq_spec(a, b),
{
    match (a, b) {
        (Key::Char(x), Key::Char(y)) => to_ascii_lower(x) == to_ascii_lower(y),
        _ => a == b,
    }
}

impl Trigger {
    pub fn key(key: Key, mods: Modifiers) -> (r: Trigger)
        ensures
            r == (Trigger { key: Some(key), button: None, mods, press: true, double: false }),
    {
        Trigger { key: Some(key), button: None, mods, press: true, double: false }
    }

    pub fn button(button: MouseButton, mods: Modifiers) -> (r: Trigger)
        ensures
            r == (Trigger { key: None, button: Some(button), mods, press: true, double: false }),
    {
        Trigger { key: None, button: Some(button), mods, press: true, double: false }
    }

    pub fn matches(&self, ev: &Event) -> (r: bool)
        ensures
            r == trigger_matches(*self, *ev),
    {
        match ev {
            Event::Key { key, pressed, mods, .. } => match self.key {
                Some(k) => key_eq(k, *key) && *pressed == self.press && *mods == self.mods,
                None => false,
            },
            Event::Button { button, pressed, mods, .. } => match self.button {
                Some(b) => b == *button && *pressed == self.press && *mods == self.mods,
                None => false,
            },
            _ => false,
        }
    }
}

pub struct KeyItem {
    pub trigger: Trigger,
    pub op: String,
    pub overrides: Vec<(String, Value)>,
}

impl KeyItem {
    pub fn new(trigger: Trigger, op: &str) -> (r: KeyItem)
        ensures
            r.trigger == trigger,
            r.op@ == op@,
            r.overrides@.len() == 0,
    {
        KeyItem { trigger, op: op.to_owned(), overrides: Vec::new() }
    }

    /// The same item, also setting `field` to `v`.
    pub fn with(self, field: &str, v: Value) -> (r: KeyItem)
        ensures
            r.trigger == self.trigger,
            r.op == self.op,
            r.overrides@.len() == self.overrides@.len() + 1,
            forall|i: int| 0 <= i < self.overrides@.len() ==> #[trigger] r.overrides@[i] == self.overrides@[i],
            r.overrides@.last().0@ == field@,
            r.overrides@.last().1 == v,
    {
        let mut s = self;
        s.overrides.push((field.to_owned(), v));
        s
    }

    /// `(name, value)` pairs as the executor wants them.
    pub fn overrides(&self) -> (r: Vec<(&str, Value)>)
        ensures
            r@.len() == self.overrides@.len(),
            forall|i: int| 0 <= i < r@.len() ==> (#[trigger] r@[i]).0@ == self.overrides@[i].0@ && r@[i].1 == self.overrides@[i].1,
    {
        let mut out: Vec<(&str, Value)> = Vec::new();
        let mut i: usize = 0;
        while i < self.overrides.len()
            invariant
                i <= self.overrides@.len(),
                out@.len() == i,
                forall|k: int| 0 <= k < i ==> (#[trigger] out@[k]).0@ == self.overrides@[k].0@ && out@[k].1 == self.overrides@[k].1,
            decreases self.overrides@.len() - i,
        {
            let (n, v) = &self.overrides[i];
            out.push((n.as_str(), v.clone()));
            i = i + 1;
        }
        out
    }
}

pub struct KeyMap {
    pub name: String,
    pub items: Vec<KeyItem>,
}

pub struct KeyConfig {
    pub maps: Vec<KeyMap>,
}

/// Context names the shell passes, most specific first.
pub const CTX_WINDOW: &'static str = "window";

pub const CTX_OBJECT: &'static str = "object";

pub const CTX_MESH: &'static str = "mesh";

pub const CTX_OUTLINER: &'static str = "outliner";

/// The keymap contexts keys nothing else took are resolved in, in order:
/// the active area's editor (`"editor"` when no area is active), then the
/// mesh context while a mesh is being edited and the object context
/// otherwise, then the window.
pub fn key_contexts<'a>(editor: Option<&'a str>, editing_mesh: bool) -> (r: Vec<&'a str>)
    ensures
        r@.len() == 3,
        r@[0]@ == (match editor {
            Some(e) => e@,
            None => "editor"@,
        }),
        r@[1]@ == (if editing_mesh { CTX_MESH@ } else { CTX_OBJECT@ }),
        r@[2]@ == CTX_WINDOW@,
{
    let first: &'a str = match editor {
        Some(e) => e,
        None => "editor",
    };
    let mode: &'a str = if editing_mesh { CTX_MESH } else { CTX_OBJECT };
    let mut r: Vec<&'a str> = Vec::new();
    r.push(first);
    r.push(mode);
    r.push(CTX_WINDOW);
    r
}

/// Map `i` is called `name` and no map before it is.
pub open spec fn first_named(maps: Seq<KeyMap>, name: Seq<char>, i: int) -> bool {
    &&& 0 <= i < maps.len()
    &&& maps[i].name@ == name
    &&& forall|j: int| 0 <= j < i ==> maps[j].name@ != name
}

/// At most one map is the first called `name`.
proof fn lemma_first_named_unique(maps: Seq<KeyMap>, name: Seq<char>, i: int, j: int)
    requires
        first_named(maps, name, i),
        first_named(maps, name, j),
    ensures
        i == j,
{
    if i < j {
        assert(maps[i].name@ != name);
    } else if j < i {
        assert(maps[j].name@ != name);
    }
}

/// What `map_index` finds is the first map with that name.
pub proof fn lemma_map_index(maps: Seq<KeyMap>, name: Seq<char>)
    ensures
        match map_index(maps, name) {
            Some(i) => first_named(maps, name, i),
            None => forall|i: int| 0 <= i < maps.len() ==> maps[i].name@ != name,
        },
{
    if map_index(maps, name) is None {
        assert forall|i: int| 0 <= i < maps.len() implies maps[i].name@ != name by {
            if maps[i].name@ == name {
                lemma_some_first(maps, name, i);
            }
        }
    }
}

/// A map called `name` at `i` means some first one exists.
proof fn lemma_some_first(maps: Seq<KeyMap>, name: Seq<char>, i: int)
    requires
        0 <= i < maps.len(),
        maps[i].name@ == name,
    ensures
        exists|k: int| first_named(maps, name, k),
    decreases i,
{
    if forall|j: int| 0 <= j < i ==> maps[j].name@ != name {
        assert(first_named(maps, name, i));
    } else {
        let j = choose|j: int| 0 <= j < i && maps[j].name@ != name == false;
        lemma_some_first(maps, name, j);
    }
}

/// The first map called `name`.
pub open spec fn map_index(maps: Seq<KeyMap>, name: Seq<char>) -> Option<int> {
    if exists|i: int| first_named(maps, name, i) {
        Some(choose|i: int| first_named(maps, name, i))
    } else {
        None
    }
}

/// `poll` can answer `b` for the operator id `op`.
pub open spec fn poll_answers<F: Fn(&str) -> bool>(poll: F, op: Seq<char>, b: bool) -> bool {
    exists|s: &str| s@ == op && call_ensures(poll, (s,), b)
}

/// Item `k` of the map for context `c` is a candidate: the map exists and
/// the item's trigger fires on `ev`.
pub open spec fn candidate(maps: Seq<KeyMap>, contexts: Seq<&str>, ev: Event, c: int, k: int) -> bool {
    &&& 0 <= c < contexts.len()
    &&& map_index(maps, contexts[c]@) matches Some(m)
    &&& 0 <= k < maps[m].items@.len()
    &&& trigger_matches(maps[m].items@[k].trigger, ev)
}

/// The candidate's item.
pub open spec fn candidate_item(maps: Seq<KeyMap>, contexts: Seq<&str>, c: int, k: int) -> KeyItem {
    maps[map_index(maps, contexts[c]@)->0].items@[k]
}

impl KeyConfig {
    pub fn new() -> (r: KeyConfig)
        ensures
            r.maps@.len() == 0,
    {
        KeyConfig { maps: Vec::new() }
    }

    fn position(&self, name: &str) -> (r: Option<usize>)
        ensures
            match r {
                Some(i) => map_index(self.maps@, name@) == Some(i as int) && first_named(self.maps@, name@, i as int),
                None => map_index(self.maps@, name@) is None,
            },
    {
        let mut i: usize = 0;
        while i < self.maps.len()
            invariant
                i <= self.maps@.len(),
                forall|j: int| 0 <= j < i ==> self.maps@[j].name@ != name@,
            decreases self.maps@.len() - i,
        {
            if string_eq_str(&self.maps[i].name, name) {
                proof {
                    assert(first_named(self.maps@, name@, i as int));
                    lemma_map_index(self.maps@, name@);
                    lemma_first_named_unique(self.maps@, name@, i as int, map_index(self.maps@, name@)->0);
                }
                return Some(i);
            }
            i = i + 1;
        }
        None
    }

    /// The first map called `name`.
    pub fn map(&self, name: &str) -> (r: Option<&KeyMap>)
        ensures
            match map_index(self.maps@, name@) {
                Some(i) => r == Some(&self.maps@[i]),
                None => r is None,
            },
    {
        match self.position(name) {
            Some(i) => Some(&self.maps[i]),
            None => None,
        }
    }

    /// The map called `name`, created (empty, at the end) if there is none.
    pub fn map_mut(&mut self, name: &str) -> (r: &mut KeyMap)
        ensures
            match map_index(old(self).maps@, name@) {
                Some(i) => {
                    &&& *r == old(self).maps@[i]
                    &&& final(self).maps@ == old(self).maps@.update(i, *final(r))
                },
                None => {
                    &&& r.name@ == name@
                    &&& r.items@.len() == 0
                    &&& final(self).maps@.len() == old(self).maps@.len() + 1
                    &&& final(self).maps@.drop_last() == old(self).maps@
                    &&& final(self).maps@.last() == *final(r)
                },
            },
    {
        let i = match self.position(name) {
            Some(i) => i,
            None => {
                self.maps.push(KeyMap { name: name.to_owned(), items: Vec::new() });
                self.maps.len() - 1
            },
        };
        let ghost before = self.maps@;
        let r = &mut self.maps[i];
        proof {
            if map_index(old(self).maps@, name@) is None {
                assert(before.drop_last() =~= old(self).maps@);
            }
        }
        r
    }

    /// Add `item` to the map called `map`, creating the map at the end if
    /// there is none.
    pub fn bind(&mut self, map: &str, item: KeyItem)
        ensures
            match map_index(old(self).maps@, map@) {
                Some(i) => final(self).maps@.len() == old(self).maps@.len()
                    && forall|j: int| 0 <= j < old(self).maps@.len() && j != i ==> #[trigger] final(self).maps@[j] == old(self).maps@[j],
                None => final(self).maps@.len() == old(self).maps@.len() + 1
                    && forall|j: int| 0 <= j < old(self).maps@.len() ==> #[trigger] final(self).maps@[j] == old(self).maps@[j],
            },
            ({
                let i = match map_index(old(self).maps@, map@) { Some(i) => i, None => old(self).maps@.len() as int };
                &&& final(self).maps@[i].name@ == map@
                &&& final(self).maps@[i].items@ == (if i < old(self).maps@.len() { old(self).maps@[i].items@ } else { seq![] }).push(item)
            }),
    {
        let i = match self.position(map) {
            Some(i) => i,
            None => {
                self.maps.push(KeyMap { name: map.to_owned(), items: Vec::new() });
                self.maps.len() - 1
            },
        };
        let mut m = self.maps.remove(i);
        m.items.push(item);
        self.maps.insert(i, m);
    }

    /// The first item, taking `contexts` in order and each map's items in
    /// order, whose trigger fires on `ev` and whose operator `poll`s true.
    pub fn resolve<'a, F: Fn(&str) -> bool>(&'a self, contexts: &[&str], ev: &Event, poll: F) -> (r: Option<&'a KeyItem>)
        requires
            forall|s: &str| call_requires(poll, (s,)),
        ensures
            match r {
                Some(item) => exists|c: int, k: int| {
                    &&& candidate(self.maps@, contexts@, *ev, c, k)
                    &&& *item == candidate_item(self.maps@, contexts@, c, k)
                    &&& poll_answers(poll, item.op@, true)
                    &&& forall|c2: int, k2: int| (c2 < c || (c2 == c && k2 < k)) && candidate(self.maps@, contexts@, *ev, c2, k2)
                        ==> poll_answers(poll, candidate_item(self.maps@, contexts@, c2, k2).op@, false)
                },
                None => forall|c: int, k: int| candidate(self.maps@, contexts@, *ev, c, k)
                    ==> poll_answers(poll, candidate_item(self.maps@, contexts@, c, k).op@, false),
            },
    {
        let mut ci: usize = 0;
        while ci < contexts.len()
            invariant
                ci <= contexts@.len(),
                forall|s: &str| call_requires(poll, (s,)),
                forall|c: int, k: int| 0 <= c < ci && candidate(self.maps@, contexts@, *ev, c, k)
                    ==> poll_answers(poll, candidate_item(self.maps@, contexts@, c, k).op@, false),
            decreases contexts@.len() - ci,
        {
            match self.position(contexts[ci]) {
                None => {},
                Some(m) => {
                    let map = &self.maps[m];
                    let mut k: usize = 0;
                    while k < map.items.len()
                        invariant
                            k <= map.items@.len(),
                            ci < contexts@.len(),
                            *map == self.maps@[m as int],
                            map_index(self.maps@, contexts@[ci as int]@) == Some(m as int),
                            forall|s: &str| call_requires(poll, (s,)),
                            forall|c: int, k2: int| 0 <= c < ci && candidate(self.maps@, contexts@, *ev, c, k2)
                                ==> poll_answers(poll, candidate_item(self.maps@, contexts@, c, k2).op@, false),
                            forall|k2: int| 0 <= k2 < k && candidate(self.maps@, contexts@, *ev, ci as int, k2)
                                ==> poll_answers(poll, candidate_item(self.maps@, contexts@, ci as int, k2).op@, false),
                        decreases map.items@.len() - k,
                    {
                        let item = &map.items[k];
                        if item.trigger.matches(ev) {
                            let s = item.op.as_str();
                            let ok = poll(s);
                            if ok {
                                proof {
                                    assert(candidate(self.maps@, contexts@, *ev, ci as int, k as int));
                                }
                                return Some(item);
                            }
                            proof {
                                assert(poll_answers(poll, item.op@, false));
                            }
                        }
                        k = k + 1;
                    }
                },
            }
            ci = ci + 1;
        }
        None
    }
}

/// `a == b` between a `String` and a `str`.
fn string_eq_str(a: &String, b: &str) -> (r: bool)
    ensures
        r == (a@ == b@),
{
    let sa = a.as_str();
    let na = sa.unicode_len();
    let nb = b.unicode_len();
    if na != nb {
        return false;
    }
    let mut i: usize = 0;
    while i < na
        invariant
            sa@ == a@,
            na == a@.len(),
            nb == b@.len(),
            na == nb,
            i <= na,
            forall|k: int| 0 <= k < i ==> a@[k] == b@[k],
        decreases na - i,
    {
        if sa.get_char(i) != b.get_char(i) {
            return false;
        }
        i = i + 1;
    }
    assert(a@ =~= b@);
    true
}


/// A press of `k` with exactly `ctrl`, `shift`, `alt` held.
pub open spec fn press(k: Key, ctrl: bool, shift: bool, alt: bool) -> Trigger {
    Trigger { key: Some(k), button: None, mods: Modifiers { ctrl, shift, alt }, press: true, double: false }
}

/// `it` runs `op` on `t` with no property overrides.
pub open spec fn plain(it: KeyItem, t: Trigger, op: Seq<char>) -> bool {
    &&& it.trigger == t
    &&& it.op@ == op
    &&& it.overrides@.len() == 0
}

/// `it` runs `op` on `t`, setting `field` to `v` first.
pub open spec fn setting(it: KeyItem, t: Trigger, op: Seq<char>, field: Seq<char>, v: Value) -> bool {
    &&& it.trigger == t
    &&& it.op@ == op
    &&& it.overrides@.len() == 1
    &&& it.overrides@[0].0@ == field
    &&& it.overrides@[0].1 == v
}

/// `it` runs `wm.call_menu` on `t` for the menu called `menu`.
pub open spec fn menu_call(it: KeyItem, t: Trigger, menu: Seq<char>) -> bool {
    &&& it.trigger == t
    &&& it.op@ == "wm.call_menu"@
    &&& it.overrides@.len() == 1
    &&& it.overrides@[0].0@ == "menu"@
    &&& it.overrides@[0].1 matches Value::Str(s) && s@ == menu
}

/// The window-wide bindings Prism ships with.
pub open spec fn window_defaults(m: KeyMap) -> bool {
    let it = m.items@;
    &&& m.name@ == CTX_WINDOW@
    &&& it.len() == 12
    &&& plain(it[0], press(Key::Char('z'), true, false, false), "ed.undo"@)
    &&& plain(it[1], press(Key::Char('z'), true, true, false), "ed.redo"@)
    &&& plain(it[2], press(Key::Char('y'), true, false, false), "ed.redo"@)
    &&& plain(it[3], press(Key::Char('s'), true, false, false), "wm.save"@)
    &&& plain(it[4], press(Key::Char('s'), true, true, false), "wm.save_as"@)
    &&& plain(it[5], press(Key::Char('o'), true, false, false), "wm.open"@)
    &&& plain(it[6], press(Key::Char('n'), true, false, false), "wm.new"@)
    &&& plain(it[7], press(Key::Char('q'), true, false, false), "wm.quit"@)
    &&& plain(it[8], press(Key::F(3), false, false, false), "wm.palette"@)
    &&& plain(it[9], press(Key::Space, true, false, false), "wm.palette"@)
    &&& plain(it[10], press(Key::Home, false, false, false), "view3d.frame_all"@)
    &&& plain(it[11], press(Key::Char('.'), false, false, false), "view3d.frame_selected"@)
}

/// The object-mode bindings Prism ships with.
pub open spec fn object_defaults(m: KeyMap) -> bool {
    let it = m.items@;
    &&& m.name@ == CTX_OBJECT@
    &&& it.len() == 7
    &&& menu_call(it[0], press(Key::Char('a'), false, true, false), "add"@)
    &&& plain(it[1], press(Key::Char('x'), false, false, false), "object.delete"@)
    &&& plain(it[2], press(Key::Delete, false, false, false), "object.delete"@)
    &&& setting(it[3], press(Key::Char('a'), false, false, false), "object.select_all"@, "action"@, Value::Enum(0))
    &&& setting(it[4], press(Key::Char('a'), false, false, true), "object.select_all"@, "action"@, Value::Enum(2))
    &&& plain(it[5], press(Key::Char('d'), false, true, false), "object.duplicate"@)
    &&& it[6].trigger == press(Key::Tab, false, false, false)
    &&& it[6].op@ == "object.mode_set"@
    &&& it[6].overrides@.len() == 2
    &&& it[6].overrides@[0].0@ == "mode"@ && it[6].overrides@[0].1 == Value::Enum(1)
    &&& it[6].overrides@[1].0@ == "toggle"@ && it[6].overrides@[1].1 == Value::Bool(true)
}

/// The mesh edit-mode bindings Prism ships with.
pub open spec fn mesh_defaults(m: KeyMap) -> bool {
    let it = m.items@;
    &&& m.name@ == CTX_MESH@
    &&& it.len() == 11
    &&& setting(it[0], press(Key::Tab, false, false, false), "object.mode_set"@, "mode"@, Value::Enum(0))
    &&& setting(it[1], press(Key::Char('a'), false, false, false), "mesh.select_all"@, "action"@, Value::Enum(0))
    &&& setting(it[2], press(Key::Char('a'), false, false, true), "mesh.select_all"@, "action"@, Value::Enum(2))
    &&& plain(it[3], press(Key::Char('e'), false, false, false), "mesh.extrude"@)
    &&& menu_call(it[4], press(Key::Char('x'), false, false, false), "mesh_delete"@)
    &&& setting(it[5], press(Key::Delete, false, false, false), "mesh.delete"@, "kind"@, Value::Enum(2))
    &&& plain(it[6], press(Key::Char('m'), false, false, false), "mesh.merge_by_distance"@)
    &&& setting(it[7], press(Key::Char('1'), false, false, false), "mesh.select_mode"@, "mode"@, Value::Enum(0))
    &&& setting(it[8], press(Key::Char('2'), false, false, false), "mesh.select_mode"@, "mode"@, Value::Enum(1))
    &&& setting(it[9], press(Key::Char('3'), false, false, false), "mesh.select_mode"@, "mode"@, Value::Enum(2))
    &&& plain(it[10], press(Key::Char('n'), false, true, false), "mesh.normals_make_consistent"@)
}

/// In the window-wide bindings Prism ships with, undo is Ctrl+Z and nothing
/// else: the only binding that runs `ed.undo` is a Ctrl+Z press. Redo is
/// Ctrl+Y and Ctrl+Shift+Z: every binding on a Y or Z press with Ctrl held,
/// other than the plain Ctrl+Z, runs `ed.redo`, and both are bound.
pub proof fn law_window_undo_redo(m: KeyMap)
    requires
        window_defaults(m),
    ensures
        forall|i: int| 0 <= i < m.items@.len() && #[trigger] m.items@[i].op@ == "ed.undo"@
            ==> m.items@[i].trigger == press(Key::Char('z'), true, false, false),
        forall|i: int| 0 <= i < m.items@.len() && (#[trigger] m.items@[i]).trigger.mods.ctrl
            && (m.items@[i].trigger.key == Some(Key::Char('y')) || m.items@[i].trigger.key == Some(Key::Char('z')))
            && m.items@[i].trigger != press(Key::Char('z'), true, false, false)
            ==> m.items@[i].op@ == "ed.redo"@,
        exists|i: int| 0 <= i < m.items@.len() && #[trigger] m.items@[i].trigger == press(Key::Char('y'), true, false, false)
            && m.items@[i].op@ == "ed.redo"@,
        exists|i: int| 0 <= i < m.items@.len() && #[trigger] m.items@[i].trigger == press(Key::Char('z'), true, true, false)
            && m.items@[i].op@ == "ed.redo"@,
{
    let it = m.items@;
    reveal_strlit("ed.undo");
    reveal_strlit("ed.redo");
    reveal_strlit("wm.save");
    reveal_strlit("wm.save_as");
    reveal_strlit("wm.open");
    reveal_strlit("wm.new");
    reveal_strlit("wm.quit");
    reveal_strlit("wm.palette");
    reveal_strlit("view3d.frame_all");
    reveal_strlit("view3d.frame_selected");
    assert forall|i: int| 0 <= i < it.len() && #[trigger] it[i].op@ == "ed.undo"@
        implies it[i].trigger == press(Key::Char('z'), true, false, false) by {
        if i >= 1 {
            assert(it[i].op@ != "ed.undo"@) by {
                if i == 1 || i == 2 {
                    assert(it[i].op@[3] != "ed.undo"@[3]);
                } else {
                    assert(it[i].op@[0] != "ed.undo"@[0] || it[i].op@.len() != "ed.undo"@.len());
                }
            }
        }
    }
    assert forall|i: int| 0 <= i < it.len() && (#[trigger] it[i]).trigger.mods.ctrl
        && (it[i].trigger.key == Some(Key::Char('y')) || it[i].trigger.key == Some(Key::Char('z')))
        && it[i].trigger != press(Key::Char('z'), true, false, false)
        implies it[i].op@ == "ed.redo"@ by {
        assert(i == 1 || i == 2);
    }
    assert(it[2].trigger == press(Key::Char('y'), true, false, false) && it[2].op@ == "ed.redo"@);
    assert(it[1].trigger == press(Key::Char('z'), true, true, false) && it[1].op@ == "ed.redo"@);
}

fn window_map() -> (m: KeyMap)
    ensures
        window_defaults(m),
{
    let ctrl = Modifiers::ctrl();
    let shift = Modifiers::shift();
    let none = Modifiers::none();
    let mut v: Vec<KeyItem> = Vec::new();
    v.push(KeyItem::new(Trigger::key(Key::Char('z'), ctrl), "ed.undo"));
    v.push(KeyItem::new(Trigger::key(Key::Char('z'), ctrl.union(shift)), "ed.redo"));
    v.push(KeyItem::new(Trigger::key(Key::Char('y'), ctrl), "ed.redo"));
    v.push(KeyItem::new(Trigger::key(Key::Char('s'), ctrl), "wm.save"));
    v.push(KeyItem::new(Trigger::key(Key::Char('s'), ctrl.union(shift)), "wm.save_as"));
    v.push(KeyItem::new(Trigger::key(Key::Char('o'), ctrl), "wm.open"));
    v.push(KeyItem::new(Trigger::key(Key::Char('n'), ctrl), "wm.new"));
    v.push(KeyItem::new(Trigger::key(Key::Char('q'), ctrl), "wm.quit"));
    v.push(KeyItem::new(Trigger::key(Key::F(3), none), "wm.palette"));
    v.push(KeyItem::new(Trigger::key(Key::Space, ctrl), "wm.palette"));
    v.push(KeyItem::new(Trigger::key(Key::Home, none), "view3d.frame_all"));
    v.push(KeyItem::new(Trigger::key(Key::Char('.'), none), "view3d.frame_selected"));
    KeyMap { name: CTX_WINDOW.to_owned(), items: v }
}

fn object_map() -> (m: KeyMap)
    ensures
        object_defaults(m),
{
    let shift = Modifiers::shift();
    let none = Modifiers::none();
    let alt = Modifiers::alt();
    let mut v: Vec<KeyItem> = Vec::new();
    v.push(KeyItem::new(Trigger::key(Key::Char('a'), shift), "wm.call_menu").with("menu", Value::Str("add".to_owned())));
    v.push(KeyItem::new(Trigger::key(Key::Char('x'), none), "object.delete"));
    v.push(KeyItem::new(Trigger::key(Key::Delete, none), "object.delete"));
    v.push(KeyItem::new(Trigger::key(Key::Char('a'), none), "object.select_all").with("action", Value::Enum(0)));
    v.push(KeyItem::new(Trigger::key(Key::Char('a'), alt), "object.select_all").with("action", Value::Enum(2)));
    v.push(KeyItem::new(Trigger::key(Key::Char('d'), shift), "object.duplicate"));
    v.push(
        KeyItem::new(Trigger::key(Key::Tab, none), "object.mode_set").with("mode", Value::Enum(1)).with("toggle", Value::Bool(true)),
    );
    KeyMap { name: CTX_OBJECT.to_owned(), items: v }
}

fn mesh_map() -> (m: KeyMap)
    ensures
        mesh_defaults(m),
{
    let shift = Modifiers::shift();
    let none = Modifiers::none();
    let alt = Modifiers::alt();
    let mut v: Vec<KeyItem> = Vec::new();
    v.push(KeyItem::new(Trigger::key(Key::Tab, none), "object.mode_set").with("mode", Value::Enum(0)));
    v.push(KeyItem::new(Trigger::key(Key::Char('a'), none), "mesh.select_all").with("action", Value::Enum(0)));
    v.push(KeyItem::new(Trigger::key(Key::Char('a'), alt), "mesh.select_all").with("action", Value::Enum(2)));
    v.push(KeyItem::new(Trigger::key(Key::Char('e'), none), "mesh.extrude"));
    v.push(KeyItem::new(Trigger::key(Key::Char('x'), none), "wm.call_menu").with("menu", Value::Str("mesh_delete".to_owned())));
    v.push(KeyItem::new(Trigger::key(Key::Delete, none), "mesh.delete").with("kind", Value::Enum(2)));
    v.push(KeyItem::new(Trigger::key(Key::Char('m'), none), "mesh.merge_by_distance"));
    v.push(KeyItem::new(Trigger::key(Key::Char('1'), none), "mesh.select_mode").with("mode", Value::Enum(0)));
    v.push(KeyItem::new(Trigger::key(Key::Char('2'), none), "mesh.select_mode").with("mode", Value::Enum(1)));
    v.push(KeyItem::new(Trigger::key(Key::Char('3'), none), "mesh.select_mode").with("mode", Value::Enum(2)));
    v.push(KeyItem::new(Trigger::key(Key::Char('n'), shift), "mesh.normals_make_consistent"));
    KeyMap { name: CTX_MESH.to_owned(), items: v }
}

impl KeyConfig {
    /// The bindings Prism ships with: window-wide, then object mode, then
    /// mesh edit mode.
    pub fn default_prism() -> (k: KeyConfig)
        ensures
            k.maps@.len() == 3,
            window_defaults(k.maps@[0]),
            object_defaults(k.maps@[1]),
            mesh_defaults(k.maps@[2]),
    {
        let mut maps: Vec<KeyMap> = Vec::new();
        maps.push(window_map());
        maps.push(object_map());
        maps.push(mesh_map());
        KeyConfig { maps }
    }
}

} // verus!
