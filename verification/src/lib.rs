//! Layout, geometry and widget-state logic of a small game and GUI toolkit.
pub mod geom2d;
pub mod gui;
pub mod asset;
pub mod input;
pub mod window;
pub mod atlas;
