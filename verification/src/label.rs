//! Label information for widgets.

use vstd::prelude::*;

verus! {

/// A font size, in points.
pub type FontSize = u32;

/// An enum for passing in label information to widget arguments, with a color of type `C`.
#[derive(Clone, Copy, Debug, PartialEq)]
pub enum Labeling<'a, C> {
    /// A label with its text, font size and color.
    Label(&'a str, FontSize, C),
    /// No label.
    NoLabel,
}

} // verus!
