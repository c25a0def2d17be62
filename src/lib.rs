//! Wallpaper state management for multi-display desktops: selecting displays,
//! resolving the wallpaper that is actually showing, and planning assignments
//! that survive the desktop service's "same path" no-op.

pub mod color;
pub mod scale;
pub mod screen;
pub mod current;
pub mod assign;
pub mod session;
pub mod desktop;
