//! Algorithms over the widget graph.

use vstd::prelude::*;
use crate::widget::{Index, NodeIndex};
use super::Edge;
use super::index_map::GraphIndex;
use super::widget_graph::{Graph, is_parent_chain, chain_end, parents_of, node_numbers};

verus! {

/// Parts of the graph that are significant when visiting and sorting by depth: a widget, or its
/// scrollbar (which may appear on top of the widget's children).
#[derive(Copy, Clone, Debug, PartialEq, Eq, Structural)]
pub enum Visitable {
    /// The index of some widget in the graph.
    Widget(NodeIndex),
    /// The scrollbar for the widget at the given NodeIndex.
    Scrollbar(NodeIndex),
}

/// The last position at which `is_over` holds, if any.
pub open spec fn last_over(is_over: Seq<bool>) -> Option<int>
    decreases is_over.len(),
{
    if is_over.len() == 0 {
        None
    } else if is_over.last() {
        Some(is_over.len() - 1)
    } else {
        last_over(is_over.drop_last())
    }
}

/// The widget index by which the graph knows node `n`: its widget id if it has one.
pub open spec fn index_of<G>(g: Graph<G>, n: NodeIndex) -> Index {
    match n.widget_id_in(g.index_map()) {
        Some(id) => Index::Public(id),
        None => Index::Internal(n),
    }
}

/// `r` is what picking the visitable `v` gives: a scrollbar its own widget; a widget the topmost
/// of its chain of graphic parents (itself where it has none).
pub open spec fn picked_as<G>(g: Graph<G>, v: Visitable, r: Index) -> bool {
    match v {
        Visitable::Scrollbar(n) => r == index_of(g, n),
        Visitable::Widget(n) => exists|chain: Seq<u32>|
            is_parent_chain(g.edge_set(), n.0, Edge::Graphic, chain)
                && parents_of(g.edge_set(), chain_end(n.0, chain), Edge::Graphic) == Set::<u32>::empty()
                && r == index_of(g, NodeIndex(chain_end(n.0, chain))),
    }
}

/// Pick the widget under some point: `depth_order` lists the graph's visitables from the
/// deepest, and `is_over[i]` says whether the point is over the visible area of
/// `depth_order[i]`. The topmost visitable under the point is picked; where it is a widget that
/// is a graphic element of another, the topmost of its graphic parents is given instead.
pub fn pick_widget<G>(g: &Graph<G>, depth_order: &[Visitable], is_over: &[bool]) -> (r: Option<Index>)
    requires
        g.wf(),
        is_over@.len() == depth_order@.len(),
    ensures
        match last_over(is_over@) {
            Some(i) => r matches Some(ri) && picked_as(*g, depth_order@[i], ri),
            None => r is None,
        },
{
    let mut i: usize = is_over.len();
    assert(is_over@.take(i as int) =~= is_over@);
    while i > 0
        invariant
            g.wf(),
            i <= is_over@.len(),
            is_over@.len() == depth_order@.len(),
            last_over(is_over@) == last_over(is_over@.take(i as int)),
        decreases i,
    {
        assert(is_over@.take(i as int).drop_last() =~= is_over@.take(i as int - 1));
        if is_over[i - 1] {
            let v = depth_order[i - 1];
            let n = match v {
                Visitable::Widget(idx) => {
                    let chain = g.graphic_parent_recursion(idx);
                    let top = if chain.len() == 0 {
                        idx
                    } else {
                        chain[chain.len() - 1]
                    };
                    proof {
                        let ns = node_numbers(chain@);
                        assert(ns.len() == chain@.len());
                        if chain@.len() > 0 {
                            assert(ns.last() == chain@.last().0);
                        }
                        assert(top == NodeIndex(chain_end(idx.0, ns)));
                        assert(is_parent_chain(g.edge_set(), idx.0, Edge::Graphic, ns));
                    }
                    top
                },
                Visitable::Scrollbar(idx) => idx,
            };
            let r = g.widget_index(n);
            proof {
                assert(is_over@.take(i as int).last() == is_over@[i - 1]);
            }
            return r;
        }
        i = i - 1;
    }
    assert(is_over@.take(0) =~= Seq::<bool>::empty());
    None
}

} // verus!
