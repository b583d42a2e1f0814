//! What an operator hands back to the editor: requests for the UI layer, a
//! status line, and how it ended.

use vstd::prelude::*;
use vstd::std_specs::convert::FromSpecImpl;

verus! {

/// Something the operator wants the UI layer to do.
#[derive(Clone, Debug, PartialEq, Eq)]
pub enum UiRequest {
    Undo,
    Redo,
    /// The document was replaced wholesale (new / open): forget history.
    HistoryClear,
    /// Open a named menu at the pointer.
    Menu(String),
    /// Open the command palette.
    Palette,
    /// Ask for a path, then run `op` with its `path` property set.
    PathDialog { op: String, save: bool, suggest: Option<String> },
    /// Frame the scene (or the selection) in the active 3D viewport.
    ViewFrame { selected: bool },
    /// Solid or wireframe shading in the active 3D viewport.
    ViewShading { wire: bool },
    ViewToggleGrid,
    /// Cycle the active viewport's transform gizmo (Move, Rotate, Scale).
    GizmoCycle,
    /// Show this gizmo (index into Move, Rotate, Scale).
    GizmoSet(usize),
    Quit,
}

/// What an operator sees besides the document: the requests it makes and
/// one line for the status area.
pub struct Ctx {
    pub requests: Vec<UiRequest>,
    pub report: Option<String>,
}

impl Ctx {
    pub fn new() -> (r: Ctx)
        ensures
            r.requests@.len() == 0,
            r.report is None,
    {
        Ctx { requests: Vec::new(), report: None }
    }

    /// Set the status line.
    pub fn report(&mut self, msg: String)
        ensures
            final(self).report == Some(msg),
            final(self).requests@ == old(self).requests@,
    {
        self.report = Some(msg);
    }

    /// Ask the UI layer for something.
    pub fn request(&mut self, r: UiRequest)
        ensures
            final(self).requests@ == old(self).requests@.push(r),
            final(self).report == old(self).report,
    {
        self.requests.push(r);
    }
}

/// Result of `exec`.
#[derive(Clone, Copy, Debug, PartialEq, Eq, Structural)]
pub enum Outcome {
    /// The document changed (or the op did its job): record undo.
    Finished,
    /// Nothing happened; nothing to record.
    Cancelled,
    /// The op did not want this; let others try.
    PassThrough,
}

/// Result of `invoke` / `modal`.
#[derive(Clone, Copy, Debug, PartialEq, Eq, Structural)]
pub enum Flow {
    Running,
    Finished,
    Cancelled,
    PassThrough,
}

pub open spec fn flow_of(o: Outcome) -> Flow {
    match o {
        Outcome::Finished => Flow::Finished,
        Outcome::Cancelled => Flow::Cancelled,
        Outcome::PassThrough => Flow::PassThrough,
    }
}

impl From<Outcome> for Flow {
    fn from(o: Outcome) -> (r: Flow)
        ensures
            r == flow_of(o),
    {
        match o {
            Outcome::Finished => Flow::Finished,
            Outcome::Cancelled => Flow::Cancelled,
            Outcome::PassThrough => Flow::PassThrough,
        }
    }
}

impl FromSpecImpl<Outcome> for Flow {
    open spec fn obeys_from_spec() -> bool {
        true
    }

    open spec fn from_spec(o: Outcome) -> Flow {
        flow_of(o)
    }
}

} // verus!
