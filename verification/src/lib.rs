//! Conrod: an immediate-mode 2D GUI library.
//!
//! This crate holds the verified core of the library: utility functions, text cursor and
//! line-break bookkeeping, identifier maps for images, textures and fonts, mouse and input state,
//! input capture tracking, and the small state machines that drive the widgets.

pub mod utils;
pub mod text;
pub mod texture;
pub mod image;
pub mod input;
pub mod position;
pub mod widget;
pub mod events;
pub mod event;
pub mod mouse;
pub mod mouse_state;
pub mod rectangle;
pub mod slider;
pub mod toggle;
pub mod text_box;
pub mod number_dialer;
pub mod graph;
pub mod ui_context;
pub mod label;
pub mod ui;
