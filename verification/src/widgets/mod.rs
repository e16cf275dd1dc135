//! The widgets' logic: focus among widgets, zoom axes, the mouse, and editing text.
pub mod bag;
pub mod cursor;
pub mod mouse;
pub mod text_box;
pub mod zoom_axis;
