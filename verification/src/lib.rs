//! Verified core of a small 2D user-interface toolkit drawn with a GPU.
//!
//! The library holds the discrete decisions of the toolkit: keyboard
//! modifier sets, mesh index generation and merging, batching of draw
//! commands, focus navigation, drag and drop, and resource bookkeeping.
//! Geometry in floating point and all GPU calls live in the application.

pub mod event;
pub mod mesh;
pub mod renderer;
pub mod frame;
pub mod drag_drop_manager;
pub mod ui_manager;
pub mod interactive_state;
pub mod button;
pub mod texture_manager;
pub mod font_system;
pub mod loader;
pub mod types;
pub mod render_context;
pub mod layout;
pub mod widget_tree;
