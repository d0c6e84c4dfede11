//! Types used for positioning and aligning widgets.

pub mod axis;
pub mod rect;
pub mod relative;

pub use self::axis::{Align, Axis, Direction};
pub use self::rect::Corner;
