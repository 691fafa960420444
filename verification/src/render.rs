//! Geometry, layout, the annotation data model, and what is to be painted.
//!
//! Everything works in device pixels. The display scale only sizes the UI chrome (toolbar,
//! popups, text) so it stays legible on HiDPI; annotation and selection coordinates are raw
//! device pixels.

pub mod annotation;
pub mod blur;
pub mod chrome;
pub mod color;
pub mod drawing;
pub mod geometry;
pub mod icons;
pub mod laws;
pub mod layout;
pub mod noise;
pub mod raster;
pub mod ratio;
pub mod scene;
pub mod thickness;
pub mod tool;

pub use annotation::Annotation;
pub use blur::{box_blur, box_blur_h, box_blur_v, build_blur_surface};
pub use chrome::{draw_color_wheel, draw_thickness_slider, draw_toolbar};
pub use color::{hsv_to_rgb, wheel_color_at, Color};
pub use drawing::DrawOp;
pub use geometry::{rect_from_corner_points, Rect, Scale};
pub use layout::{
    color_wheel_layout, preset_swatch_rects, thickness_slider_layout, toolbar_layout,
};
pub use noise::Xorshift;
pub use ratio::Ratio;
pub use scene::{draw_annotations, draw_dim_full, draw_dim_outside, draw_selection_border};
pub use thickness::thickness_from_slider_x;
pub use tool::{Tool, ToolbarItem};
