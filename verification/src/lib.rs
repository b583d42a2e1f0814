//! Prism: the editor's operator system, its key bindings and undo history,
//! the small pieces of UI state the shell keeps, and the PNG decoder used for
//! colour emoji bitmaps.

pub mod builtin;
pub mod context;
pub mod decimal;
pub mod executor;
pub mod history;
pub mod inflate;
pub mod input;
pub mod keymap;
pub mod operator;
pub mod png;
pub mod registry;
pub mod ui;
pub mod viewport;
