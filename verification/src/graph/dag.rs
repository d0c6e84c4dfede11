//! The directed acyclic graph that holds the widget nodes and the edges between them, kept in a
//! `daggy::Dag`, and what the graph's code is told of the calls it makes into it.

use vstd::prelude::*;
use super::Edge;
use super::paths::{acyclic, reaches};

verus! {

/// A cached widget within a graph node: the kind of widget and its place in the order in which
/// the widgets were instantiated.
#[derive(Clone, Copy, Debug)]
pub struct Container {
    /// A unique widget kind identifier.
    pub kind: &'static str,
    /// Represents the Widget's position within the overall instantiation ordering of the widgets.
    pub instantiation_order_idx: usize,
}

/// A node for use within the **Graph**.
#[derive(Clone, Copy, Debug)]
pub enum Node {
    /// A widget constructed by a user.
    Widget(Container),
    /// A placeholder node, reserving a place for a widget that was not set yet.
    Placeholder,
}

impl Node {
    /// Whether or not the **Node** is of the **Widget** variant.
    pub fn is_widget(&self) -> (r: bool)
        ensures
            r == (*self is Widget),
    {
        match self {
            Node::Widget(_) => true,
            Node::Placeholder => false,
        }
    }
}

/// The graph of widget nodes, held in a `daggy::Dag` whose node and edge weights are `Node` and
/// `Edge`, indexed by `u32`. Verus sees it only through `dag_nodes`, `dag_edges` and the
/// functions below.
#[verifier::external_body]
pub struct WidgetDag {
    dag: daggy::Dag<Node, Edge, u32>,
}

/// The node weights of a dag, in the order of their node indices.
pub uninterp spec fn dag_nodes(d: WidgetDag) -> Seq<Node>;

/// The edges of a dag as (parent, child, weight), in the order of their edge indices.
pub uninterp spec fn dag_edges(d: WidgetDag) -> Seq<(u32, u32, Edge)>;

/// The edges that remain after petgraph's `remove_edge` of edge `e`: the last edge takes the
/// removed one's index.
pub open spec fn swap_removed(edges: Seq<(u32, u32, Edge)>, e: int) -> Seq<(u32, u32, Edge)> {
    edges.update(e, edges.last()).drop_last()
}

/// `Dag::new`: an empty dag.
#[verifier::external_body]
pub(crate) fn dag_new() -> (d: WidgetDag)
    ensures
        dag_nodes(d) == Seq::<Node>::empty(),
        dag_edges(d) == Seq::<(u32, u32, Edge)>::empty(),
{
    WidgetDag { dag: daggy::Dag::new() }
}

/// `Dag::with_capacity`: an empty dag with room reserved for the given numbers of nodes and
/// edges.
#[verifier::external_body]
pub(crate) fn dag_with_capacity(nodes: usize, edges: usize) -> (d: WidgetDag)
    ensures
        dag_nodes(d) == Seq::<Node>::empty(),
        dag_edges(d) == Seq::<(u32, u32, Edge)>::empty(),
{
    WidgetDag { dag: daggy::Dag::with_capacity(nodes, edges) }
}

/// `Dag::add_node`: pushes the weight as the last node, whose index it returns. petgraph panics
/// when the index would reach `u32::MAX`, hence the `requires`.
#[verifier::external_body]
pub(crate) fn dag_add_node(d: &mut WidgetDag, n: Node) -> (r: u32)
    requires
        dag_nodes(*old(d)).len() + 1 < u32::MAX,
    ensures
        r == dag_nodes(*old(d)).len(),
        dag_nodes(*final(d)) == dag_nodes(*old(d)).push(n),
        dag_edges(*final(d)) == dag_edges(*old(d)),
{
    d.dag.add_node(n).index() as u32
}

/// `Dag::add_edge`: either adds the edge `a -> b` as the last edge and answers `true`, or, where
/// the edge would make a cycle, leaves the dag as it was and answers `false`. Both nodes must
/// exist and the edge count stay below `u32::MAX`, or petgraph panics. On an acyclic dag daggy
/// refuses the edge exactly when `a` can be reached from `b` (`a == b` included: its cycle check
/// is `has_path_connecting(b, a)`, skipped only where no such path can exist), so the dag stays
/// acyclic.
#[verifier::external_body]
pub(crate) fn dag_add_edge(d: &mut WidgetDag, a: u32, b: u32, e: Edge) -> (r: bool)
    requires
        a < dag_nodes(*old(d)).len(),
        b < dag_nodes(*old(d)).len(),
        dag_edges(*old(d)).len() + 1 < u32::MAX,
    ensures
        dag_nodes(*final(d)) == dag_nodes(*old(d)),
        r ==> dag_edges(*final(d)) == dag_edges(*old(d)).push((a, b, e)),
        !r ==> dag_edges(*final(d)) == dag_edges(*old(d)),
        acyclic(dag_edges(*old(d)).to_set()) ==> (r <==> !reaches(dag_edges(*old(d)).to_set(), b, a)),
        acyclic(dag_edges(*old(d)).to_set()) ==> acyclic(dag_edges(*final(d)).to_set()),
{
    let ai = daggy::NodeIndex::new(a as usize);
    let bi = daggy::NodeIndex::new(b as usize);
    match d.dag.add_edge(ai, bi, e) {
        Ok(_) => true,
        Err(_) => false,
    }
}

/// `Dag::remove_edge`: removes edge `e`; the last edge takes its index.
#[verifier::external_body]
pub(crate) fn dag_remove_edge(d: &mut WidgetDag, e: u32)
    requires
        e < dag_edges(*old(d)).len(),
    ensures
        dag_nodes(*final(d)) == dag_nodes(*old(d)),
        dag_edges(*final(d)) == swap_removed(dag_edges(*old(d)), e as int),
{
    d.dag.remove_edge(daggy::EdgeIndex::new(e as usize));
}

/// `Dag::edge_count`: the number of edges.
#[verifier::external_body]
pub(crate) fn dag_edge_count(d: &WidgetDag) -> (r: usize)
    ensures
        r == dag_edges(*d).len(),
{
    d.dag.edge_count()
}

/// `Dag::node_count`: the number of nodes.
#[verifier::external_body]
pub(crate) fn dag_node_count(d: &WidgetDag) -> (r: usize)
    ensures
        r == dag_nodes(*d).len(),
{
    d.dag.node_count()
}

/// `Dag::edge_endpoints`: the parent and child of edge `e`, if there is such an edge.
#[verifier::external_body]
pub(crate) fn dag_edge_endpoints(d: &WidgetDag, e: u32) -> (r: Option<(u32, u32)>)
    ensures
        r == (if e < dag_edges(*d).len() {
            Some((dag_edges(*d)[e as int].0, dag_edges(*d)[e as int].1))
        } else {
            None
        }),
{
    match d.dag.edge_endpoints(daggy::EdgeIndex::new(e as usize)) {
        Some((a, b)) => Some((a.index() as u32, b.index() as u32)),
        None => None,
    }
}

/// `Dag::edge_weight`: the weight of edge `e`, if there is such an edge.
#[verifier::external_body]
pub(crate) fn dag_edge_weight(d: &WidgetDag, e: u32) -> (r: Option<Edge>)
    ensures
        r == (if e < dag_edges(*d).len() {
            Some(dag_edges(*d)[e as int].2)
        } else {
            None
        }),
{
    match d.dag.edge_weight(daggy::EdgeIndex::new(e as usize)) {
        Some(w) => Some(*w),
        None => None,
    }
}

/// `Dag::node_weight_mut`: replaces the weight of node `i`, if there is such a node.
#[verifier::external_body]
pub(crate) fn dag_set_node(d: &mut WidgetDag, i: u32, n: Node)
    ensures
        dag_nodes(*final(d)) == (if i < dag_nodes(*old(d)).len() {
            dag_nodes(*old(d)).update(i as int, n)
        } else {
            dag_nodes(*old(d))
        }),
        dag_edges(*final(d)) == dag_edges(*old(d)),
{
    if let Some(w) = d.dag.node_weight_mut(daggy::NodeIndex::new(i as usize)) {
        *w = n;
    }
}

/// `Dag::node_weight`: the weight of node `i`, if there is such a node.
#[verifier::external_body]
pub(crate) fn dag_node_weight(d: &WidgetDag, i: u32) -> (r: Option<Node>)
    ensures
        r == (if i < dag_nodes(*d).len() {
            Some(dag_nodes(*d)[i as int])
        } else {
            None
        }),
{
    match d.dag.node_weight(daggy::NodeIndex::new(i as usize)) {
        Some(n) => Some(*n),
        None => None,
    }
}

} // verus!
