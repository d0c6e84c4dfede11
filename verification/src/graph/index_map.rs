//! Maps the identifiers that users give to widgets to the nodes of the widget graph, and back.

use std::collections::HashMap;
use vstd::prelude::*;
use crate::widget::{Id as WidgetId, Index, NodeIndex};

verus! {

broadcast use vstd::std_specs::hash::group_hash_axioms;

/// Maps a WidgetId given by the user to a NodeIndex into the Graph (and vice versa).
#[derive(Debug)]
pub struct IndexMap {
    nodes: HashMap<usize, NodeIndex>,
    widgets: HashMap<u32, usize>,
}

impl IndexMap {
    /// The node of each widget id that has one.
    pub closed spec fn nodes(&self) -> Map<WidgetId, NodeIndex> {
        self.nodes@
    }

    /// The widget id of each node (by its number) that has one.
    pub closed spec fn widgets(&self) -> Map<u32, WidgetId> {
        self.widgets@
    }

    /// Construct an IndexMap with the given capacity.
    pub fn with_capacity(capacity: usize) -> (r: IndexMap)
        ensures
            r.nodes() == Map::<WidgetId, NodeIndex>::empty(),
            r.widgets() == Map::<u32, WidgetId>::empty(),
    {
        IndexMap { nodes: HashMap::with_capacity(capacity), widgets: HashMap::with_capacity(capacity) }
    }

    /// Add a WidgetId NodeIndex pair.
    pub fn insert(&mut self, widget_id: WidgetId, node_idx: NodeIndex)
        ensures
            final(self).nodes() == old(self).nodes().insert(widget_id, node_idx),
            final(self).widgets() == old(self).widgets().insert(node_idx.0, widget_id),
    {
        self.nodes.insert(widget_id, node_idx);
        self.widgets.insert(node_idx.0, widget_id);
    }

    /// Return Some NodeIndex for the given WidgetId if there is one.
    pub fn get_node_index(&self, id: WidgetId) -> (r: Option<NodeIndex>)
        ensures
            r == self.nodes().get(id),
    {
        match self.nodes.get(&id) {
            Some(idx) => Some(*idx),
            None => None,
        }
    }

    /// Return Some WidgetId for the given NodeIndex if there is one.
    pub fn get_widget_id(&self, idx: NodeIndex) -> (r: Option<WidgetId>)
        ensures
            r == self.widgets().get(idx.0),
    {
        match self.widgets.get(&idx.0) {
            Some(id) => Some(*id),
            None => None,
        }
    }
}

/// The pair last inserted for a widget id is what the map gives for it, both ways.
pub proof fn law_get_after_insert(
    nodes: Map<WidgetId, NodeIndex>,
    widgets: Map<u32, WidgetId>,
    id: WidgetId,
    idx: NodeIndex,
)
    ensures
        nodes.insert(id, idx).get(id) == Some(idx),
        widgets.insert(idx.0, id).get(idx.0) == Some(id),
{
}

/// Being generic over both WidgetId and NodeIndex. Each method only returns `Some` if the index
/// is contained as a key within the given IndexMap, or is already of the kind asked for.
pub trait GraphIndex: Copy + Sized {
    /// The widget id of the index within the map, if it has one.
    spec fn widget_id_in(self, map: IndexMap) -> Option<WidgetId>;

    /// The node of the index within the map, if it has one.
    spec fn node_index_in(self, map: IndexMap) -> Option<NodeIndex>;

    /// If not one already, convert Self to a WidgetId if it exists within the IndexMap.
    fn to_widget_id(self, map: &IndexMap) -> (r: Option<WidgetId>)
        ensures
            r == self.widget_id_in(*map),
    ;

    /// If not one already, convert Self to a NodeIndex if it exists within the IndexMap.
    fn to_node_index(self, map: &IndexMap) -> (r: Option<NodeIndex>)
        ensures
            r == self.node_index_in(*map),
    ;
}

impl GraphIndex for WidgetId {
    open spec fn widget_id_in(self, map: IndexMap) -> Option<WidgetId> {
        Some(self)
    }

    open spec fn node_index_in(self, map: IndexMap) -> Option<NodeIndex> {
        map.nodes().get(self)
    }

    fn to_widget_id(self, map: &IndexMap) -> (r: Option<WidgetId>) {
        Some(self)
    }

    fn to_node_index(self, map: &IndexMap) -> (r: Option<NodeIndex>) {
        map.get_node_index(self)
    }
}

impl GraphIndex for NodeIndex {
    open spec fn widget_id_in(self, map: IndexMap) -> Option<WidgetId> {
        map.widgets().get(self.0)
    }

    open spec fn node_index_in(self, map: IndexMap) -> Option<NodeIndex> {
        Some(self)
    }

    fn to_widget_id(self, map: &IndexMap) -> (r: Option<WidgetId>) {
        map.get_widget_id(self)
    }

    fn to_node_index(self, map: &IndexMap) -> (r: Option<NodeIndex>) {
        Some(self)
    }
}

impl GraphIndex for Index {
    /// An internal index names its node directly; a public one is looked up in the map.
    open spec fn node_index_in(self, map: IndexMap) -> Option<NodeIndex> {
        match self {
            Index::Internal(idx) => Some(idx),
            Index::Public(id) => map.nodes().get(id),
        }
    }

    /// A public index names its widget id directly; an internal one is looked up in the map.
    open spec fn widget_id_in(self, map: IndexMap) -> Option<WidgetId> {
        match self {
            Index::Internal(idx) => map.widgets().get(idx.0),
            Index::Public(id) => Some(id),
        }
    }

    fn to_node_index(self, map: &IndexMap) -> (r: Option<NodeIndex>) {
        match self {
            Index::Internal(idx) => Some(idx),
            Index::Public(id) => id.to_node_index(map),
        }
    }

    fn to_widget_id(self, map: &IndexMap) -> (r: Option<WidgetId>) {
        match self {
            Index::Internal(idx) => idx.to_widget_id(map),
            Index::Public(id) => Some(id),
        }
    }
}

/// Construct a widget::Index from some GraphIndex: a public index if the map has a widget id
/// for it, otherwise an internal one if it has a node.
pub fn index_from_idx<I: GraphIndex>(other: I, map: &IndexMap) -> (r: Option<Index>)
    ensures
        r == (match other.widget_id_in(*map) {
            Some(id) => Some(Index::Public(id)),
            None => match other.node_index_in(*map) {
                Some(idx) => Some(Index::Internal(idx)),
                None => None,
            },
        }),
{
    match other.to_widget_id(map) {
        Some(id) => Some(Index::Public(id)),
        None => match other.to_node_index(map) {
            Some(idx) => Some(Index::Internal(idx)),
            None => None,
        },
    }
}

} // verus!
