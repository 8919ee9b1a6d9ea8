//! Tiling logic of a dynamic tiling window manager: the window list of the
//! current workspace, the dwindle and master-stack layouts, window frame
//! compensation, the decisions taken on window events and hotkeys, and the
//! status payload broadcast to the bar.
pub mod events;
pub mod geometry;
pub mod config;
pub mod layout;
pub mod text;
pub mod window;
pub mod workspace;
