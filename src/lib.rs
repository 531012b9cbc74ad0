//! Application shell of a tiled, tabbed egui workspace: the tab model, the
//! layout tree over `egui_tiles`, the window registry and the shutdown guard.
pub mod context;
pub mod text;
pub mod tabs;
pub mod layout;
pub mod behavior;
pub mod windows;
pub mod shell;
pub mod state;

pub use crate::context::Context;
