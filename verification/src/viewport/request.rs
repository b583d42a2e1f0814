//! What the UI asks the viewport renderer to draw and to pick.

use vstd::prelude::*;

verus! {

/// The six axis-aligned views.
#[derive(Clone, Copy, Debug, PartialEq, Eq, Structural)]
pub enum ViewPreset {
    Front,
    Back,
    Right,
    Left,
    Top,
    Bottom,
}

#[derive(Clone, Copy, Debug, PartialEq, Eq, Structural)]
pub enum Shading {
    Solid,
    Wire,
}

impl Default for Shading {
    fn default() -> (r: Shading)
        ensures
            r == Shading::Solid,
    {
        Shading::Solid
    }
}

#[derive(Clone, Copy, Debug, PartialEq, Eq, Structural)]
pub struct Overlays {
    pub grid: bool,
    /// Wireframe on top of solid shading (always on in edit mode).
    pub wire: bool,
    /// Vertex dots in edit mode.
    pub verts: bool,
}

impl Default for Overlays {
    /// The grid and vertex dots on, the wireframe off.
    fn default() -> (r: Overlays)
        ensures
            r == (Overlays { grid: true, wire: false, verts: true }),
    {
        Overlays { grid: true, wire: false, verts: true }
    }
}

/// A navigation drag in progress.
#[derive(Clone, Copy, Debug, PartialEq, Eq, Structural)]
pub enum Nav {
    /// No drag in progress.
    Idle,
    Orbit,
    Pan,
}

impl Default for Nav {
    fn default() -> (r: Nav)
        ensures
            r == Nav::Idle,
    {
        Nav::Idle
    }
}

#[derive(Clone, Copy, Debug, PartialEq, Eq, Structural)]
pub enum PickMode {
    Object,
    Vertex,
    Edge,
    Face,
}

/// Why a pick was requested.
#[derive(Clone, Copy, Debug, PartialEq, Eq, Structural)]
pub enum PickPurpose {
    Select,
    /// Right click: open the context menu for what was hit.
    ContextMenu,
}

impl Default for PickPurpose {
    fn default() -> (r: PickPurpose)
        ensures
            r == PickPurpose::Select,
    {
        PickPurpose::Select
    }
}

/// A handle of the transform gizmo: one per world axis, and the free one
/// in the middle.
#[derive(Clone, Copy, Debug, PartialEq, Eq, Structural)]
pub enum GizmoHandle {
    Free,
    X,
    Y,
    Z,
}

/// Which transform the gizmo shows.
#[derive(Clone, Copy, Debug, PartialEq, Eq, Structural)]
pub enum GizmoMode {
    Move,
    Rotate,
    Scale,
}

impl GizmoMode {
    pub open spec fn next_spec(self) -> GizmoMode {
        match self {
            GizmoMode::Move => GizmoMode::Rotate,
            GizmoMode::Rotate => GizmoMode::Scale,
            GizmoMode::Scale => GizmoMode::Move,
        }
    }

    /// The gizmo after this one: Move, Rotate, Scale, Move.
    pub fn next(self) -> (r: GizmoMode)
        ensures
            r == self.next_spec(),
    {
        match self {
            GizmoMode::Move => GizmoMode::Rotate,
            GizmoMode::Rotate => GizmoMode::Scale,
            GizmoMode::Scale => GizmoMode::Move,
        }
    }
}

/// Cycling the gizmo three times comes back to where it started, through
/// every mode on the way.
pub proof fn law_gizmo_cycle(m: GizmoMode)
    ensures
        m.next_spec().next_spec().next_spec() == m,
        m.next_spec() != m,
        m.next_spec().next_spec() != m,
{
}

} // verus!
