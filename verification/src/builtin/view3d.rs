//! Viewport operators. The camera lives in the UI, so these only ask.

use vstd::prelude::*;

use crate::context::{Ctx, Outcome, UiRequest};
use crate::operator::{OpError, OpFlags, OpResult, Operator};
use crate::registry::{add_ops, OpInfo, Registry};

verus! {

pub struct FrameAll;

impl Operator for FrameAll {
    open spec fn spec_info() -> OpInfo {
        OpInfo { id: "view3d.frame_all", label: "Frame All", flags: OpFlags(1) }
    }

    fn info() -> (r: OpInfo) {
        OpInfo { id: "view3d.frame_all", label: "Frame All", flags: OpFlags(1) }
    }
}

pub struct FrameSelected;

impl Operator for FrameSelected {
    open spec fn spec_info() -> OpInfo {
        OpInfo { id: "view3d.frame_selected", label: "Frame Selected", flags: OpFlags(1) }
    }

    fn info() -> (r: OpInfo) {
        OpInfo { id: "view3d.frame_selected", label: "Frame Selected", flags: OpFlags(1) }
    }
}

pub struct Shading;

impl Operator for Shading {
    open spec fn spec_info() -> OpInfo {
        OpInfo { id: "view3d.shading", label: "Viewport Shading", flags: OpFlags(1) }
    }

    fn info() -> (r: OpInfo) {
        OpInfo { id: "view3d.shading", label: "Viewport Shading", flags: OpFlags(1) }
    }
}

pub struct ToggleGrid;

impl Operator for ToggleGrid {
    open spec fn spec_info() -> OpInfo {
        OpInfo { id: "view3d.toggle_grid", label: "Toggle Grid", flags: OpFlags(1) }
    }

    fn info() -> (r: OpInfo) {
        OpInfo { id: "view3d.toggle_grid", label: "Toggle Grid", flags: OpFlags(1) }
    }
}

/// Show one transform gizmo in the active viewport.
pub struct Gizmo;

impl Operator for Gizmo {
    open spec fn spec_info() -> OpInfo {
        OpInfo { id: "view3d.gizmo", label: "Gizmo", flags: OpFlags(1) }
    }

    fn info() -> (r: OpInfo) {
        OpInfo { id: "view3d.gizmo", label: "Gizmo", flags: OpFlags(1) }
    }
}

/// Next gizmo: Move, Rotate, Scale, Move.
pub struct GizmoCycle;

impl Operator for GizmoCycle {
    open spec fn spec_info() -> OpInfo {
        OpInfo { id: "view3d.gizmo_cycle", label: "Cycle Gizmo", flags: OpFlags(1) }
    }

    fn info() -> (r: OpInfo) {
        OpInfo { id: "view3d.gizmo_cycle", label: "Cycle Gizmo", flags: OpFlags(1) }
    }
}

/// What `register` adds, in order.
pub open spec fn ops() -> Seq<OpInfo> {
    seq![FrameAll::spec_info(), FrameSelected::spec_info(), Shading::spec_info(), ToggleGrid::spec_info(), Gizmo::spec_info(), GizmoCycle::spec_info()]
}

pub fn register(r: &mut Registry)
    ensures
        final(r).view() == add_ops(old(r).view(), ops()),
{
    let infos = vec![FrameAll::info(), FrameSelected::info(), Shading::info(), ToggleGrid::info(), Gizmo::info(), GizmoCycle::info()];
    proof {
        assert(infos@ =~= ops());
    }
    r.register_infos(infos.as_slice());
}

impl FrameAll {
    /// Ask the active viewport to frame the whole scene.
    pub fn exec(ctx: &mut Ctx) -> (r: OpResult<Outcome>)
        ensures
            r == Ok::<Outcome, OpError>(Outcome::Finished),
            final(ctx).requests@ == old(ctx).requests@.push(UiRequest::ViewFrame { selected: false }),
            final(ctx).report == old(ctx).report,
    {
        ctx.request(UiRequest::ViewFrame { selected: false });
        Ok(Outcome::Finished)
    }
}

impl FrameSelected {
    /// Ask the active viewport to frame the selection.
    pub fn exec(ctx: &mut Ctx) -> (r: OpResult<Outcome>)
        ensures
            r == Ok::<Outcome, OpError>(Outcome::Finished),
            final(ctx).requests@ == old(ctx).requests@.push(UiRequest::ViewFrame { selected: true }),
            final(ctx).report == old(ctx).report,
    {
        ctx.request(UiRequest::ViewFrame { selected: true });
        Ok(Outcome::Finished)
    }
}

impl ToggleGrid {
    /// Ask the active viewport to show or hide its grid.
    pub fn exec(ctx: &mut Ctx) -> (r: OpResult<Outcome>)
        ensures
            r == Ok::<Outcome, OpError>(Outcome::Finished),
            final(ctx).requests@ == old(ctx).requests@.push(UiRequest::ViewToggleGrid),
            final(ctx).report == old(ctx).report,
    {
        ctx.request(UiRequest::ViewToggleGrid);
        Ok(Outcome::Finished)
    }
}

impl GizmoCycle {
    /// Ask the active viewport for its next gizmo.
    pub fn exec(ctx: &mut Ctx) -> (r: OpResult<Outcome>)
        ensures
            r == Ok::<Outcome, OpError>(Outcome::Finished),
            final(ctx).requests@ == old(ctx).requests@.push(UiRequest::GizmoCycle),
            final(ctx).report == old(ctx).report,
    {
        ctx.request(UiRequest::GizmoCycle);
        Ok(Outcome::Finished)
    }
}

impl Shading {
    /// Ask the active viewport for wireframe (`wire`) or solid shading.
    pub fn exec(ctx: &mut Ctx, wire: bool) -> (r: OpResult<Outcome>)
        ensures
            r == Ok::<Outcome, OpError>(Outcome::Finished),
            final(ctx).requests@ == old(ctx).requests@.push(UiRequest::ViewShading { wire }),
            final(ctx).report == old(ctx).report,
    {
        ctx.request(UiRequest::ViewShading { wire });
        Ok(Outcome::Finished)
    }
}

/// The three transform gizmos, in the order the viewport cycles them.
#[derive(Clone, Copy, Debug, PartialEq, Eq, Structural)]
pub enum GizmoKind {
    Move,
    Rotate,
    Scale,
}

impl GizmoKind {
    pub open spec fn index_spec(self) -> usize {
        match self {
            GizmoKind::Move => 0,
            GizmoKind::Rotate => 1,
            GizmoKind::Scale => 2,
        }
    }

    /// Its place among Move, Rotate, Scale.
    pub fn index(self) -> (r: usize)
        ensures
            r == self.index_spec(),
    {
        match self {
            GizmoKind::Move => 0,
            GizmoKind::Rotate => 1,
            GizmoKind::Scale => 2,
        }
    }
}

impl Gizmo {
    /// Ask the active viewport to show the `mode` gizmo.
    pub fn exec(ctx: &mut Ctx, mode: GizmoKind) -> (r: OpResult<Outcome>)
        ensures
            r == Ok::<Outcome, OpError>(Outcome::Finished),
            final(ctx).requests@ == old(ctx).requests@.push(UiRequest::GizmoSet(mode.index_spec())),
            final(ctx).report == old(ctx).report,
    {
        ctx.request(UiRequest::GizmoSet(mode.index()));
        Ok(Outcome::Finished)
    }
}

} // verus!
