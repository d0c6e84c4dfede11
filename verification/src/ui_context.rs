//! Identifiers of the widgets that a `UiContext` keeps.

use vstd::prelude::*;

verus! {

/// The unique identifier that each widget passes to the `UiContext`.
pub type UIID = u64;

/// Id property.
#[derive(Clone, Copy, Debug, PartialEq, Eq, Structural)]
pub struct Id(pub UIID);

} // verus!
