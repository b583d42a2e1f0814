//! The transform gizmo's handles, and the constraint each one starts its
//! transform with. Drawing the handles and hit-testing them is the host's.

use vstd::prelude::*;

use crate::builtin::transform::Axis;
use crate::viewport::request::GizmoHandle;

verus! {

/// The `Axis` property value (its index among Free, X, Y, Z) a handle
/// starts a `transform.*` operator with.
pub fn axis_index(h: GizmoHandle) -> (r: i64)
    ensures
        r == match h {
            GizmoHandle::Free => 0i64,
            GizmoHandle::X => 1i64,
            GizmoHandle::Y => 2i64,
            GizmoHandle::Z => 3i64,
        },
{
    match h {
        GizmoHandle::Free => 0,
        GizmoHandle::X => 1,
        GizmoHandle::Y => 2,
        GizmoHandle::Z => 3,
    }
}

/// The constraint a handle starts its transform with.
pub fn handle_axis(h: GizmoHandle) -> (r: Axis)
    ensures
        r == match h {
            GizmoHandle::Free => Axis::Free,
            GizmoHandle::X => Axis::X,
            GizmoHandle::Y => Axis::Y,
            GizmoHandle::Z => Axis::Z,
        },
{
    match h {
        GizmoHandle::Free => Axis::Free,
        GizmoHandle::X => Axis::X,
        GizmoHandle::Y => Axis::Y,
        GizmoHandle::Z => Axis::Z,
    }
}

} // verus!
