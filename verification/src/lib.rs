//! Screenshot capture planning for Hyprland: the geometry a capture mode
//! selects, clipping of a window's box to the monitor layout, the
//! configuration and its defaults, and the commands a capture runs.

pub mod text;
pub mod paths;
pub mod config;
pub mod geometry;
pub mod session;
pub mod capture;
