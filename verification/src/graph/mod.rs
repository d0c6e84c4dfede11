//! The widget graph: how widgets relate to one another by depth, position and graphics, and
//! how the identifiers that users give to widgets map to the graph's nodes.

use vstd::prelude::*;
use crate::position::axis::Axis;

pub mod index_map;
pub mod dag;
pub mod algo;
pub mod paths;
pub mod widget_graph;

pub use self::dag::{Container, Node};
pub use self::widget_graph::{Graph, PreUpdateCache, WouldCycle};

verus! {

/// An edge between nodes within the UI Graph.
#[derive(Clone, Copy, Debug, PartialEq, Eq, Structural)]
pub enum Edge {
    /// Describes the relative positioning of widgets.
    ///
    /// When adding an edge *a -> b*, *b* is positioned relatively to *a*.
    Position(Axis),
    /// Describes the rendering order of the widgets.
    ///
    /// When adding an edge *a -> b*, *a* is the parent of (and will be rendered before) *b*.
    Depth,
    /// Describes when a widget is used solely as a graphical element for another widget.
    ///
    /// When adding an edge *a -> b*, *b* is considered to be a graphical element of *a*.
    Graphic,
}

/// The number of different variants within the **Edge** enum.
pub const NUM_EDGE_VARIANTS: usize = 4;

/// Whether the edge describes rendering order.
pub fn is_depth_edge(e: &Edge) -> (r: bool)
    ensures
        r == (*e == Edge::Depth),
{
    match e {
        Edge::Depth => true,
        _ => false,
    }
}

/// Whether the edge describes positioning along the x axis.
pub fn is_x_position_edge(e: &Edge) -> (r: bool)
    ensures
        r == (*e == Edge::Position(Axis::X)),
{
    match e {
        Edge::Position(Axis::X) => true,
        _ => false,
    }
}

/// Whether the edge describes positioning along the y axis.
pub fn is_y_position_edge(e: &Edge) -> (r: bool)
    ensures
        r == (*e == Edge::Position(Axis::Y)),
{
    match e {
        Edge::Position(Axis::Y) => true,
        _ => false,
    }
}

/// Whether the edge describes a graphical element.
pub fn is_graphic_edge(e: &Edge) -> (r: bool)
    ensures
        r == (*e == Edge::Graphic),
{
    match e {
        Edge::Graphic => true,
        _ => false,
    }
}

} // verus!
