//! The parts of the editor's UI layer that are decisions rather than
//! drawing: the screen's split tree, editor kinds, the window frame's
//! resize zones and commands, the context menu's tool strip, the gizmo's
//! handles, popups frame by frame, and the shell's routing of the pointer
//! and of operators' requests.

pub mod context_menu;
pub mod editors;
pub mod gizmo;
pub mod icons;
pub mod popups;
pub mod screen;
pub mod shell;
pub mod state;
pub mod titlebar;
