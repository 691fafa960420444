//! The verified core of a Wayland screenshot annotator.

pub mod canvas;
pub mod capture;
pub mod editor;
pub mod keys;
pub mod render;
pub mod save;
pub mod session;
pub mod text;
