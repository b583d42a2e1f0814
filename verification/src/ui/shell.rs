//! The shell's decisions for one rebuild of the window: how the pointer
//! is routed between separator drags and area focus, what each request an
//! operator made does to the shell, which cursor shows, and the window's
//! title. Measuring the pointer against the laid-out screen, and drawing,
//! are the host's: it hands these functions what it measured.

use vstd::prelude::*;
use vstd::string::*;

use crate::context::UiRequest;
use crate::ui::popups::{popup_for, popup_for_post, Popup};
use crate::ui::screen::Axis;
use crate::ui::state::CursorIcon;

verus! {

#[derive(Clone, Copy, Debug, PartialEq, Eq, Structural)]
pub struct WindowState {
    pub maximized: bool,
    pub focused: bool,
}

impl Default for WindowState {
    /// Neither maximized nor focused.
    fn default() -> (r: WindowState)
        ensures
            r == (WindowState { maximized: false, focused: false }),
    {
        WindowState { maximized: false, focused: false }
    }
}

/// What `Path::file_name` gives for `path`, as text (`None` when the path
/// ends in `..` or is a root).
pub uninterp spec fn path_file_name(path: Seq<char>) -> Option<Seq<char>>;

/// `std::path::Path::file_name`, on text: the last component of `path`.
/// The contract only names the result; which component that is is std's
/// rule.
#[verifier::external_body]
fn file_name(path: &str) -> (r: Option<String>)
    ensures
        match r {
            Some(s) => path_file_name(path@) == Some(s@),
            None => path_file_name(path@) is None,
        },
{
    std::path::Path::new(path).file_name().map(|s| s.to_string_lossy().into_owned())
}

/// The window title: the document's file name (or "Untitled"), marked
/// with a star while there are unsaved changes.
pub open spec fn title_spec(path: Option<Seq<char>>, dirty: bool) -> Seq<char> {
    let name = match path {
        Some(p) => match path_file_name(p) {
            Some(n) => n,
            None => "Untitled"@,
        },
        None => "Untitled"@,
    };
    "Prism · "@ + name + (if dirty { " *"@ } else { ""@ })
}

/// The window title for a document saved at `path` (if ever), `dirty`
/// when it changed since.
pub fn document_title(path: Option<&str>, dirty: bool) -> (r: String)
    ensures
        r@ == title_spec(
            match path {
                Some(p) => Some(p@),
                None => None,
            },
            dirty,
        ),
{
    let name = match path {
        Some(p) => match file_name(p) {
            Some(n) => n,
            None => String::from_str("Untitled"),
        },
        None => String::from_str("Untitled"),
    };
    let mut t = String::from_str("Prism · ");
    t.append(name.as_str());
    if dirty {
        t.append(" *");
    }
    proof {
        reveal_strlit("");
        assert(!dirty ==> t@ =~= t@ + ""@);
    }
    t
}

// ---------------------------------------------------------------------------
// The pointer: separator drags and focus
// ---------------------------------------------------------------------------

/// What the shell keeps between rebuilds about the pointer.
#[derive(Clone, Copy, Debug, PartialEq, Eq, Structural)]
pub struct PointerState {
    /// The separator being dragged.
    pub drag_sep: Option<usize>,
    /// The area that receives keyboard input.
    pub active: Option<usize>,
}

/// What the host measured this rebuild, before the areas are drawn.
#[derive(Clone, Copy, Debug, PartialEq, Eq, Structural)]
pub struct PointerInput {
    pub pressed: bool,
    pub down: bool,
    pub released: bool,
    /// Something (a resize grab, a popup) already took this press.
    pub press_claimed: bool,
    /// A widget's own popup (a dropdown) is open, and whether the press
    /// landed inside it.
    pub widget_popup_open: bool,
    pub press_in_widget_popup: bool,
    /// One of the shell's popups is open.
    pub shell_popup_open: bool,
    /// A widget holds the pointer.
    pub widget_active: bool,
    pub pointer_in_window: bool,
    pub focus_follows_mouse: bool,
    /// The separator under the press and under the pointer.
    pub sep_at_press: Option<usize>,
    pub sep_at_pointer: Option<usize>,
    /// The area under the press and under the pointer.
    pub area_at_press: Option<usize>,
    pub area_at_pointer: Option<usize>,
}

/// What the pointer does this rebuild.
#[derive(Clone, Copy, Debug, PartialEq, Eq, Structural)]
pub struct PointerOutcome {
    /// Drag this separator to the pointer.
    pub drag: Option<usize>,
    /// A separator grab took the press (the host marks it claimed and the
    /// separator as the active widget).
    pub grabbed: bool,
    /// The separator to show the resize cursor for.
    pub hover_sep: Option<usize>,
}

/// Separators first: a release ends a drag; a held button drags on; an
/// unclaimed press on a separator, with no popup open, starts a drag. Then
/// focus: under the pointer when focus follows the mouse (not while a
/// shell popup is open), else the area under a press that starts no drag
/// and is not inside a widget's popup.
pub open spec fn pointer_spec(s: PointerState, i: PointerInput) -> (PointerState, PointerOutcome) {
    let held = if i.released { None } else { s.drag_sep };
    let (drag_sep, drag, grabbed) = match held {
        Some(idx) => (Some(idx), if i.down { Some(idx) } else { None }, false),
        None => if i.pressed && !i.press_claimed && !i.widget_popup_open && !i.shell_popup_open && i.sep_at_press is Some {
            (i.sep_at_press, None, true)
        } else {
            (None, None, false)
        },
    };
    let hover_sep = match drag_sep {
        Some(idx) => Some(idx),
        None => if !i.widget_popup_open && !i.widget_active && !i.shell_popup_open { i.sep_at_pointer } else { None },
    };
    let active = if i.focus_follows_mouse {
        if i.pointer_in_window && !i.shell_popup_open && i.area_at_pointer is Some { i.area_at_pointer } else { s.active }
    } else if i.pressed && drag_sep is None && i.area_at_press is Some && !(i.widget_popup_open && i.press_in_widget_popup) {
        i.area_at_press
    } else {
        s.active
    };
    (PointerState { drag_sep, active }, PointerOutcome { drag, grabbed, hover_sep })
}

/// Route the pointer for one rebuild.
pub fn pointer_step(s: PointerState, i: PointerInput) -> (r: (PointerState, PointerOutcome))
    ensures
        r == pointer_spec(s, i),
{
    let mut drag_sep = if i.released { None } else { s.drag_sep };
    let mut drag: Option<usize> = None;
    let mut grabbed = false;
    match drag_sep {
        Some(idx) => {
            if i.down {
                drag = Some(idx);
            }
        },
        None => {
            if i.pressed && !i.press_claimed && !i.widget_popup_open && !i.shell_popup_open {
                if let Some(idx) = i.sep_at_press {
                    drag_sep = Some(idx);
                    grabbed = true;
                }
            }
        },
    }
    let hover_sep = match drag_sep {
        Some(idx) => Some(idx),
        None => if !i.widget_popup_open && !i.widget_active && !i.shell_popup_open { i.sep_at_pointer } else { None },
    };
    let mut active = s.active;
    if i.focus_follows_mouse {
        if i.pointer_in_window && !i.shell_popup_open {
            if let Some(a) = i.area_at_pointer {
                active = Some(a);
            }
        }
    } else if i.pressed && drag_sep.is_none() && !(i.widget_popup_open && i.press_in_widget_popup) {
        if let Some(a) = i.area_at_press {
            active = Some(a);
        }
    }
    (PointerState { drag_sep, active }, PointerOutcome { drag, grabbed, hover_sep })
}

/// The cursor for the rebuild: a window-edge resize cursor first, then a
/// separator's (by the way it splits), then whatever the widgets asked for.
pub open spec fn cursor_spec(edge: CursorIcon, hover_axis: Option<Axis>, widgets: CursorIcon) -> CursorIcon {
    if edge != CursorIcon::Default {
        edge
    } else {
        match hover_axis {
            Some(Axis::Horizontal) => CursorIcon::EwResize,
            Some(Axis::Vertical) => CursorIcon::NsResize,
            None => widgets,
        }
    }
}

/// The cursor for the rebuild, given the window-edge cursor, the axis of
/// the hovered separator and what the widgets asked for.
pub fn frame_cursor(edge: CursorIcon, hover_axis: Option<Axis>, widgets: CursorIcon) -> (r: CursorIcon)
    ensures
        r == cursor_spec(edge, hover_axis, widgets),
{
    if edge != CursorIcon::Default {
        edge
    } else {
        match hover_axis {
            Some(Axis::Horizontal) => CursorIcon::EwResize,
            Some(Axis::Vertical) => CursorIcon::NsResize,
            None => widgets,
        }
    }
}

// ---------------------------------------------------------------------------
// Requests from operators
// ---------------------------------------------------------------------------

/// Something a request asks of the 3D viewport requests target.
#[derive(Clone, Copy, Debug, PartialEq, Eq, Structural)]
pub enum ViewEffect {
    Frame { selected: bool },
    Shading { wire: bool },
    ToggleGrid,
    GizmoCycle,
    GizmoSet(usize),
}

/// A request that opens (or, for an unknown menu, closes) the shell popup.
pub open spec fn opens_popup(r: UiRequest) -> bool {
    r is Menu || r is Palette || r is PathDialog
}

/// What a request asks of the target viewport, if anything.
pub open spec fn view_effect(r: UiRequest) -> Option<ViewEffect> {
    match r {
        UiRequest::ViewFrame { selected } => Some(ViewEffect::Frame { selected }),
        UiRequest::ViewShading { wire } => Some(ViewEffect::Shading { wire }),
        UiRequest::ViewToggleGrid => Some(ViewEffect::ToggleGrid),
        UiRequest::GizmoCycle => Some(ViewEffect::GizmoCycle),
        UiRequest::GizmoSet(i) => Some(ViewEffect::GizmoSet(i)),
        _ => None,
    }
}

/// The viewport effects of `reqs`, in order.
pub open spec fn view_effects(reqs: Seq<UiRequest>) -> Seq<ViewEffect>
    decreases reqs.len(),
{
    if reqs.len() == 0 {
        Seq::empty()
    } else {
        view_effects(reqs.drop_last()) + match view_effect(reqs.last()) {
            Some(e) => seq![e],
            None => Seq::empty(),
        }
    }
}

/// The position of the last request in `reqs` that opens a popup.
pub open spec fn last_opening(reqs: Seq<UiRequest>) -> Option<int>
    decreases reqs.len(),
{
    if reqs.len() == 0 {
        None
    } else if opens_popup(reqs.last()) {
        Some(reqs.len() - 1)
    } else {
        last_opening(reqs.drop_last())
    }
}

proof fn lemma_view_effects_from(reqs: Seq<UiRequest>)
    ensures
        forall|k: int| 0 <= k < reqs.len() && (#[trigger] view_effect(reqs[k])) is Some
            ==> view_effects(reqs).contains(view_effect(reqs[k])->0),
        forall|j: int| #![trigger view_effects(reqs)[j]] 0 <= j < view_effects(reqs).len() ==> exists|k: int|
            0 <= k < reqs.len() && #[trigger] view_effect(reqs[k]) == Some(view_effects(reqs)[j]),
    decreases reqs.len(),
{
    if reqs.len() > 0 {
        let pre = reqs.drop_last();
        lemma_view_effects_from(pre);
        let vp = view_effects(pre);
        let v = view_effects(reqs);
        assert forall|k: int| 0 <= k < reqs.len() && (#[trigger] view_effect(reqs[k])) is Some
            implies v.contains(view_effect(reqs[k])->0) by {
            if k < reqs.len() - 1 {
                assert(pre[k] == reqs[k]);
                let t = choose|t: int| 0 <= t < vp.len() && vp[t] == view_effect(pre[k])->0;
                assert(v[t] == vp[t]);
            } else {
                assert(v[vp.len() as int] == view_effect(reqs.last())->0);
            }
        }
        assert forall|j: int| #![trigger v[j]] 0 <= j < v.len() implies exists|k: int|
            0 <= k < reqs.len() && #[trigger] view_effect(reqs[k]) == Some(v[j]) by {
            if j < vp.len() {
                let k = choose|k: int| 0 <= k < pre.len() && #[trigger] view_effect(pre[k]) == Some(vp[j]);
                assert(pre[k] == reqs[k]);
                assert(v[j] == vp[j]);
            } else {
                assert(view_effect(reqs[reqs.len() - 1]) == Some(v[j]));
            }
        }
    }
}

/// Routing keeps what each view request asks for: a request to frame the
/// whole scene (`selected: false`) or the selection (`selected: true`)
/// yields a frame effect with that same scope, and every frame effect comes
/// from a frame request with its scope; likewise for shading.
pub proof fn law_view_requests_keep_their_scope(reqs: Seq<UiRequest>, effects: Seq<ViewEffect>)
    requires
        effects == view_effects(reqs),
    ensures
        forall|k: int| 0 <= k < reqs.len() && (#[trigger] reqs[k]) is ViewFrame
            ==> effects.contains(ViewEffect::Frame { selected: reqs[k]->ViewFrame_selected }),
        forall|j: int| 0 <= j < effects.len() && (#[trigger] effects[j]) is Frame ==> exists|k: int|
            0 <= k < reqs.len() && reqs[k] == (UiRequest::ViewFrame { selected: effects[j]->Frame_selected }),
        forall|k: int| 0 <= k < reqs.len() && (#[trigger] reqs[k]) is ViewShading
            ==> effects.contains(ViewEffect::Shading { wire: reqs[k]->ViewShading_wire }),
        forall|j: int| 0 <= j < effects.len() && (#[trigger] effects[j]) is Shading ==> exists|k: int|
            0 <= k < reqs.len() && reqs[k] == (UiRequest::ViewShading { wire: effects[j]->Shading_wire }),
{
    lemma_view_effects_from(reqs);
    assert forall|k: int| 0 <= k < reqs.len() && (#[trigger] reqs[k]) is ViewFrame
        implies effects.contains(ViewEffect::Frame { selected: reqs[k]->ViewFrame_selected }) by {
        assert(view_effect(reqs[k]) is Some);
    }
    assert forall|j: int| 0 <= j < effects.len() && (#[trigger] effects[j]) is Frame implies exists|k: int|
        0 <= k < reqs.len() && reqs[k] == (UiRequest::ViewFrame { selected: effects[j]->Frame_selected }) by {
        let k = choose|k: int| 0 <= k < reqs.len() && #[trigger] view_effect(reqs[k]) == Some(effects[j]);
        assert(reqs[k] == (UiRequest::ViewFrame { selected: effects[j]->Frame_selected }));
    }
    assert forall|k: int| 0 <= k < reqs.len() && (#[trigger] reqs[k]) is ViewShading
        implies effects.contains(ViewEffect::Shading { wire: reqs[k]->ViewShading_wire }) by {
        assert(view_effect(reqs[k]) is Some);
    }
    assert forall|j: int| 0 <= j < effects.len() && (#[trigger] effects[j]) is Shading implies exists|k: int|
        0 <= k < reqs.len() && reqs[k] == (UiRequest::ViewShading { wire: effects[j]->Shading_wire }) by {
        let k = choose|k: int| 0 <= k < reqs.len() && #[trigger] view_effect(reqs[k]) == Some(effects[j]);
        assert(reqs[k] == (UiRequest::ViewShading { wire: effects[j]->Shading_wire }));
    }
}

/// What the shell does with the requests operators made this rebuild: the
/// last one that opens a popup decides the popup (an unknown menu closes
/// it); `Quit` asks the app to quit; view requests go to the target
/// viewport, in order; undo, redo and history requests were the executor's.
pub fn route_requests<P>(popup: Option<Popup<P>>, reqs: Vec<UiRequest>, pointer: P, doc_path: Option<&str>) -> (r: (Option<Popup<P>>, bool, Vec<ViewEffect>))
    ensures
        match last_opening(reqs@) {
            Some(k) => popup_for_post(
                reqs@[k],
                pointer,
                match doc_path {
                    Some(d) => Some(d@),
                    None => None,
                },
                r.0,
            ),
            None => r.0 == popup,
        },
        r.1 == exists|k: int| 0 <= k < reqs@.len() && reqs@[k] is Quit,
        r.2@ == view_effects(reqs@),
{
    let mut reqs = reqs;
    let mut quit = false;
    let mut effects: Vec<ViewEffect> = Vec::new();
    let mut last: Option<usize> = None;
    let mut i: usize = 0;
    while i < reqs.len()
        invariant
            i <= reqs@.len(),
            quit == exists|k: int| 0 <= k < i && reqs@[k] is Quit,
            effects@ == view_effects(reqs@.take(i as int)),
            match last_opening(reqs@.take(i as int)) {
                Some(k) => last == Some(k as usize) && 0 <= k < i,
                None => last is None,
            },
        decreases reqs@.len() - i,
    {
        proof {
            assert(reqs@.take(i + 1).drop_last() =~= reqs@.take(i as int));
            assert(reqs@.take(i + 1).last() == reqs@[i as int]);
        }
        let e: Option<ViewEffect> = match &reqs[i] {
            UiRequest::ViewFrame { selected } => Some(ViewEffect::Frame { selected: *selected }),
            UiRequest::ViewShading { wire } => Some(ViewEffect::Shading { wire: *wire }),
            UiRequest::ViewToggleGrid => Some(ViewEffect::ToggleGrid),
            UiRequest::GizmoCycle => Some(ViewEffect::GizmoCycle),
            UiRequest::GizmoSet(k) => Some(ViewEffect::GizmoSet(*k)),
            _ => None,
        };
        let opening = match &reqs[i] {
            UiRequest::Menu(_) | UiRequest::Palette | UiRequest::PathDialog { .. } => true,
            _ => false,
        };
        let is_quit = match &reqs[i] {
            UiRequest::Quit => true,
            _ => false,
        };
        match e {
            Some(x) => {
                effects.push(x);
            },
            None => {},
        }
        proof {
            match view_effect(reqs@[i as int]) {
                Some(x) => assert(effects@ =~= view_effects(reqs@.take(i as int)) + seq![x]),
                None => assert(effects@ =~= view_effects(reqs@.take(i as int)) + Seq::<ViewEffect>::empty()),
            }
        }
        if opening {
            last = Some(i);
        }
        if is_quit {
            quit = true;
        }
        proof {
            if is_quit {
                assert(0 <= i < i + 1 && reqs@[i as int] is Quit);
            }
            if exists|k: int| 0 <= k < i + 1 && reqs@[k] is Quit {
                let k = choose|k: int| 0 <= k < i + 1 && reqs@[k] is Quit;
                if k < i {
                    assert(quit);
                }
            }
        }
        i = i + 1;
    }
    assert(reqs@.take(reqs@.len() as int) =~= reqs@);
    let ghost all = reqs@;
    match last {
        Some(k) => {
            assert(last_opening(all) == Some(k as int));
            let r = reqs.remove(k);
            assert(r == all[k as int]);
            (popup_for(r, pointer, doc_path), quit, effects)
        },
        None => (popup, quit, effects),
    }
}

/// What the shell keeps between rebuilds.
pub struct ShellModel<P> {
    pub pointer: PointerState,
    pub popup: Option<Popup<P>>,
}

/// What one rebuild brings the shell besides the pointer: the requests
/// operators made, where the pointer is, and the document's path.
pub struct FrameInput<'a, P> {
    pub pointer: PointerInput,
    pub requests: Vec<UiRequest>,
    pub at: P,
    pub doc_path: Option<&'a str>,
}

/// What one rebuild asks of the host.
pub struct FrameOutcome {
    pub pointer: PointerOutcome,
    pub quit: bool,
    pub view: Vec<ViewEffect>,
    /// Rebuild again at once (some request changed the shell).
    pub rebuild: bool,
}

/// One rebuild's routing: the pointer first (with the popup as it stood),
/// then the operators' requests, each of which asks for another rebuild.
pub fn frame_step<P>(s: ShellModel<P>, input: FrameInput<P>) -> (r: (ShellModel<P>, FrameOutcome))
    ensures
        (r.0.pointer, r.1.pointer) == pointer_spec(s.pointer, input.pointer),
        match last_opening(input.requests@) {
            Some(k) => popup_for_post(
                input.requests@[k],
                input.at,
                match input.doc_path {
                    Some(d) => Some(d@),
                    None => None,
                },
                r.0.popup,
            ),
            None => r.0.popup == s.popup,
        },
        r.1.quit == exists|k: int| 0 <= k < input.requests@.len() && input.requests@[k] is Quit,
        r.1.view@ == view_effects(input.requests@),
        r.1.rebuild == (input.requests@.len() > 0),
{
    let (ps, po) = pointer_step(s.pointer, input.pointer);
    let rebuild = input.requests.len() > 0;
    let (popup, quit, view) = route_requests(s.popup, input.requests, input.at, input.doc_path);
    (ShellModel { pointer: ps, popup }, FrameOutcome { pointer: po, quit, view, rebuild })
}

} // verus!
