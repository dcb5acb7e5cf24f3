//! Styles of the menu widgets: button image states and container
//! backgrounds. Colors are theme colors, 8-bit sRGBA.
pub mod button;
pub mod container;
pub mod defaults;
