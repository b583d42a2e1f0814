//! The small procedural icons the UI draws (drawing them is the host's).

use vstd::prelude::*;

verus! {

#[derive(Clone, Copy, Debug, PartialEq, Eq, Structural)]
pub enum Icon {
    Vertex,
    Edge,
    Face,
    Solid,
    Wire,
    Grid,
    Frame,
    EditMode,
    Plus,
    Camera,
    Move,
    Rotate,
    Scale,
}

} // verus!
