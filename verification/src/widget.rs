//! Identifiers of the widgets of a `Ui`.

use vstd::prelude::*;

verus! {

/// The unique identifier that a user gives to a widget.
pub type Id = usize;

/// The index of a widget's node within the `Ui`'s widget graph.
#[derive(Copy, Clone, Debug, PartialEq, Eq, Structural, PartialOrd, Ord, Hash)]
pub struct NodeIndex(pub u32);

/// An index to a widget: either the `Id` that a user gave it, or the index of its node within
/// the widget graph (used for widgets that are instantiated internally).
#[derive(Copy, Clone, Debug, PartialEq, Eq, Structural)]
pub enum Index {
    /// A widget `Id` given by the user.
    Public(Id),
    /// The index of a widget's node within the graph.
    Internal(NodeIndex),
}

} // verus!
