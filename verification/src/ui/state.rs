//! Pointer cursor shapes the UI asks the window system for.

use vstd::prelude::*;

verus! {

#[derive(Clone, Copy, Debug, PartialEq, Eq, Structural)]
pub enum CursorIcon {
    Default,
    Pointer,
    /// North-south resize.
    NsResize,
    /// East-west resize.
    EwResize,
    /// North-east / south-west resize.
    NeswResize,
    /// North-west / south-east resize.
    NwseResize,
}

} // verus!
