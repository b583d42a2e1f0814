//! Client-side window frame: which edge or corner the pointer is on, the
//! cursor shown there, and the commands the title bar hands the window
//! system. Measuring the pointer against the window is the host's; it
//! hands over which bands the pointer lies in.

use vstd::prelude::*;

use crate::ui::state::CursorIcon;

verus! {

#[derive(Clone, Copy, Debug, PartialEq, Eq, Structural)]
pub enum ResizeEdge {
    North,
    South,
    East,
    West,
    NorthEast,
    NorthWest,
    SouthEast,
    SouthWest,
}

#[derive(Clone, Copy, Debug, PartialEq, Eq, Structural)]
pub enum WindowCommand {
    /// Start an interactive move (the pointer button is down on the title).
    Drag,
    Minimize,
    ToggleMaximize,
    Close,
    /// Start an interactive resize from this edge or corner.
    Resize(ResizeEdge),
}

/// Where the pointer lies relative to the window's edges: within the thin
/// edge band of each side (`n`, `s`, `w`, `e`) and within the wider corner
/// band (`near_*`).
#[derive(Clone, Copy, Debug, PartialEq, Eq, Structural)]
pub struct EdgeZone {
    pub n: bool,
    pub s: bool,
    pub w: bool,
    pub e: bool,
    pub near_n: bool,
    pub near_s: bool,
    pub near_w: bool,
    pub near_e: bool,
}

/// The edge or corner a pointer in `z` grabs: corners first (an edge band
/// near the perpendicular side), then the plain edges.
pub open spec fn edge_spec(z: EdgeZone) -> Option<ResizeEdge> {
    if (z.n && z.near_w) || (z.w && z.near_n) {
        Some(ResizeEdge::NorthWest)
    } else if (z.n && z.near_e) || (z.e && z.near_n) {
        Some(ResizeEdge::NorthEast)
    } else if (z.s && z.near_w) || (z.w && z.near_s) {
        Some(ResizeEdge::SouthWest)
    } else if (z.s && z.near_e) || (z.e && z.near_s) {
        Some(ResizeEdge::SouthEast)
    } else if z.n {
        Some(ResizeEdge::North)
    } else if z.s {
        Some(ResizeEdge::South)
    } else if z.w {
        Some(ResizeEdge::West)
    } else if z.e {
        Some(ResizeEdge::East)
    } else {
        None
    }
}

/// The edge or corner a pointer in `z` grabs, if any.
pub fn edge_at(z: EdgeZone) -> (r: Option<ResizeEdge>)
    ensures
        r == edge_spec(z),
{
    if (z.n && z.near_w) || (z.w && z.near_n) {
        Some(ResizeEdge::NorthWest)
    } else if (z.n && z.near_e) || (z.e && z.near_n) {
        Some(ResizeEdge::NorthEast)
    } else if (z.s && z.near_w) || (z.w && z.near_s) {
        Some(ResizeEdge::SouthWest)
    } else if (z.s && z.near_e) || (z.e && z.near_s) {
        Some(ResizeEdge::SouthEast)
    } else if z.n {
        Some(ResizeEdge::North)
    } else if z.s {
        Some(ResizeEdge::South)
    } else if z.w {
        Some(ResizeEdge::West)
    } else if z.e {
        Some(ResizeEdge::East)
    } else {
        None
    }
}

pub open spec fn cursor_spec(edge: ResizeEdge) -> CursorIcon {
    match edge {
        ResizeEdge::North | ResizeEdge::South => CursorIcon::NsResize,
        ResizeEdge::East | ResizeEdge::West => CursorIcon::EwResize,
        ResizeEdge::NorthEast | ResizeEdge::SouthWest => CursorIcon::NeswResize,
        ResizeEdge::NorthWest | ResizeEdge::SouthEast => CursorIcon::NwseResize,
    }
}

/// The resize cursor for an edge or corner.
pub fn cursor_for(edge: ResizeEdge) -> (r: CursorIcon)
    ensures
        r == cursor_spec(edge),
{
    match edge {
        ResizeEdge::North | ResizeEdge::South => CursorIcon::NsResize,
        ResizeEdge::East | ResizeEdge::West => CursorIcon::EwResize,
        ResizeEdge::NorthEast | ResizeEdge::SouthWest => CursorIcon::NeswResize,
        ResizeEdge::NorthWest | ResizeEdge::SouthEast => CursorIcon::NwseResize,
    }
}

/// What a press in the resize zones does: nothing while maximized (the
/// compositor owns the edges then), outside the window, while a widget
/// holds the pointer, or when something already claimed the press; else a
/// resize from the edge under the press, which claims it. Returns the
/// command and whether the press is claimed afterwards.
pub fn resize_command(
    maximized: bool,
    pointer_in_window: bool,
    widget_active: bool,
    press_claimed: bool,
    press: Option<EdgeZone>,
) -> (r: (Option<WindowCommand>, bool))
    ensures
        r.0 == (if maximized || !pointer_in_window || widget_active || press_claimed {
            None
        } else {
            match press {
                Some(z) => match edge_spec(z) {
                    Some(e) => Some(WindowCommand::Resize(e)),
                    None => None,
                },
                None => None,
            }
        }),
        r.1 == (press_claimed || r.0 is Some),
{
    if maximized || !pointer_in_window || widget_active || press_claimed {
        return (None, press_claimed);
    }
    match press {
        Some(z) => match edge_at(z) {
            Some(e) => (Some(WindowCommand::Resize(e)), true),
            None => (None, press_claimed),
        },
        None => (None, press_claimed),
    }
}

/// The window buttons, right to left: close, maximize, minimize.
#[derive(Clone, Copy, Debug, PartialEq, Eq, Structural)]
pub enum TitleButton {
    Close,
    Maximize,
    Minimize,
}

/// What clicking a window button asks for.
pub fn button_command(b: TitleButton) -> (r: WindowCommand)
    ensures
        r == match b {
            TitleButton::Minimize => WindowCommand::Minimize,
            TitleButton::Maximize => WindowCommand::ToggleMaximize,
            TitleButton::Close => WindowCommand::Close,
        },
{
    match b {
        TitleButton::Minimize => WindowCommand::Minimize,
        TitleButton::Maximize => WindowCommand::ToggleMaximize,
        TitleButton::Close => WindowCommand::Close,
    }
}

/// What pressing on the title asks for: a double click toggles
/// maximization, a single press starts moving the window.
pub fn title_press(double_clicked: bool) -> (r: WindowCommand)
    ensures
        r == (if double_clicked { WindowCommand::ToggleMaximize } else { WindowCommand::Drag }),
{
    if double_clicked {
        WindowCommand::ToggleMaximize
    } else {
        WindowCommand::Drag
    }
}

} // verus!
