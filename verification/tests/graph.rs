use conrod::graph::algo::{pick_widget, Visitable};
use conrod::graph::{Edge, Graph, Node, PreUpdateCache, WouldCycle};
use conrod::position::axis::Axis;
use conrod::widget::{Index, NodeIndex};

fn cache(idx: Index, parent: Option<Index>, x: Option<Index>, y: Option<Index>, gfx: Option<Index>, geometry: u8)
    -> PreUpdateCache<u8>
{
    PreUpdateCache {
        kind: "Button",
        idx,
        maybe_parent_idx: parent,
        maybe_x_positioned_relatively_idx: x,
        maybe_y_positioned_relatively_idx: y,
        maybe_graphics_for: gfx,
        geometry,
    }
}

fn edges(g: &Graph<u8>) -> Vec<(u32, u32, Edge)> {
    let mut v = Vec::new();
    for i in 0..g.edge_count() as u32 {
        let (a, b) = g.edge_endpoints(i).unwrap();
        v.push((a.0, b.0, g.edge(i).unwrap()));
    }
    v.sort_by_key(|&(a, b, e)| (a, b, format!("{:?}", e)));
    v
}

#[test]
fn new_graph_is_empty() {
    let g: Graph<u8> = Graph::new();
    assert_eq!(g.node_count(), 0);
    assert_eq!(g.edge_count(), 0);
    assert_eq!(g.widget_count(), 0);
    assert_eq!(g.edge(0), None);
    assert_eq!(g.edge_endpoints(0), None);
}

#[test]
fn placeholder_is_a_node_but_no_widget() {
    let mut g: Graph<u8> = Graph::new();
    let root = g.add_placeholder();
    assert_eq!(root, NodeIndex(0));
    assert_eq!(g.node_count(), 1);
    assert_eq!(g.widget_count(), 0);
    assert!(matches!(g.node(root), Some(Node::Placeholder)));
    assert!(!g.node(root).unwrap().is_widget());
}

#[test]
fn caching_a_new_widget_adds_its_node_under_the_root() {
    let mut g: Graph<u8> = Graph::new();
    let root = g.add_placeholder();
    assert_eq!(g.pre_update_cache(root, cache(Index::Public(7), None, None, None, None, 3), 5), Ok(()));
    assert_eq!(g.node_count(), 2);
    assert_eq!(g.widget_count(), 1);
    assert_eq!(g.node_index(Index::Public(7)), Some(NodeIndex(1)));
    assert_eq!(g.widget_id(NodeIndex(1)), Some(7));
    assert_eq!(g.widget_index(NodeIndex(1)), Some(Index::Public(7)));
    assert_eq!(g.widget_index(NodeIndex(0)), Some(Index::Internal(NodeIndex(0))));
    match g.node(Index::Public(7)) {
        Some(Node::Widget(c)) => {
            assert_eq!(c.kind, "Button");
            assert_eq!(c.instantiation_order_idx, 5);
        },
        _ => panic!("no widget cached"),
    }
    assert_eq!(edges(&g), vec![(0, 1, Edge::Depth)]);
}

#[test]
fn a_missing_parent_gets_a_placeholder() {
    let mut g: Graph<u8> = Graph::new();
    let root = g.add_placeholder();
    assert_eq!(g.pre_update_cache(root, cache(Index::Public(7), Some(Index::Public(9)), None, None, None, 1), 0), Ok(()));
    assert_eq!(g.node_count(), 3);
    assert_eq!(g.widget_count(), 1);
    assert_eq!(g.node_index(Index::Public(9)), Some(NodeIndex(2)));
    assert!(matches!(g.node(Index::Public(9)), Some(Node::Placeholder)));
    assert_eq!(edges(&g), vec![(2, 1, Edge::Depth)]);
    // The parent is cached later in the cycle and takes its placeholder's place.
    assert_eq!(g.pre_update_cache(root, cache(Index::Public(9), None, None, None, None, 2), 1), Ok(()));
    assert_eq!(g.node_count(), 3);
    assert_eq!(g.widget_count(), 2);
    assert_eq!(edges(&g), vec![(0, 2, Edge::Depth), (2, 1, Edge::Depth)]);
}

#[test]
fn position_and_graphic_parents_are_replaced_and_removed() {
    let mut g: Graph<u8> = Graph::new();
    let root = g.add_placeholder();
    let a = Index::Public(1);
    let b = Index::Public(2);
    let c = Index::Public(3);
    assert_eq!(g.pre_update_cache(root, cache(a, None, None, None, None, 0), 0), Ok(()));
    assert_eq!(g.pre_update_cache(root, cache(b, None, None, None, None, 0), 1), Ok(()));
    assert_eq!(g.pre_update_cache(root, cache(c, None, Some(a), Some(b), Some(a), 0), 2), Ok(()));
    assert_eq!(edges(&g), vec![
        (0, 1, Edge::Depth),
        (0, 2, Edge::Depth),
        (0, 3, Edge::Depth),
        (1, 3, Edge::Graphic),
        (1, 3, Edge::Position(Axis::X)),
        (2, 3, Edge::Position(Axis::Y)),
    ]);
    // Caching again with other parents replaces them; without, removes them.
    assert_eq!(g.pre_update_cache(root, cache(c, Some(a), Some(b), None, None, 0), 3), Ok(()));
    assert_eq!(edges(&g), vec![
        (0, 1, Edge::Depth),
        (0, 2, Edge::Depth),
        (1, 3, Edge::Depth),
        (2, 3, Edge::Position(Axis::X)),
    ]);
    assert_eq!(g.edge_count(), 4);
}

#[test]
fn the_root_gets_no_depth_parent() {
    let mut g: Graph<u8> = Graph::new();
    let root = g.add_placeholder();
    assert_eq!(g.pre_update_cache(root, cache(Index::Internal(root), None, None, None, None, 0), 0), Ok(()));
    assert_eq!(g.node_count(), 1);
    assert_eq!(g.widget_count(), 1);
    assert_eq!(g.edge_count(), 0);
}

#[test]
fn an_edge_that_would_cycle_is_refused() {
    let mut g: Graph<u8> = Graph::new();
    let root = g.add_placeholder();
    let a = Index::Public(1);
    assert_eq!(g.pre_update_cache(root, cache(a, None, Some(a), None, None, 0), 0), Err(WouldCycle(Edge::Position(Axis::X))));
    // The graph keeps the widget and its depth edge.
    assert_eq!(g.widget_count(), 1);
    assert_eq!(edges(&g), vec![(0, 1, Edge::Depth)]);
}

#[test]
fn a_graph_made_with_capacity_starts_empty() {
    let mut g: Graph<u8> = Graph::with_node_capacity(8);
    assert_eq!(g.node_count(), 0);
    assert_eq!(g.edge_count(), 0);
    let root = g.add_placeholder();
    assert_eq!(g.pre_update_cache(root, cache(Index::Public(2), None, None, None, None, 9), 0), Ok(()));
    assert_eq!(g.node_count(), 2);
    assert_eq!(edges(&g), vec![(0, 1, Edge::Depth)]);
}

#[test]
fn caching_a_widget_again_keeps_its_edges() {
    let mut g: Graph<u8> = Graph::new();
    let root = g.add_placeholder();
    let a = Index::Public(1);
    let b = Index::Public(2);
    assert_eq!(g.pre_update_cache(root, cache(a, None, None, None, None, 0), 0), Ok(()));
    assert_eq!(g.pre_update_cache(root, cache(b, Some(a), Some(a), None, Some(a), 0), 1), Ok(()));
    let once = edges(&g);
    assert_eq!(g.pre_update_cache(root, cache(b, Some(a), Some(a), None, Some(a), 7), 2), Ok(()));
    assert_eq!(edges(&g), once);
    assert_eq!(g.node_count(), 3);
}

#[test]
fn parents_and_edges_can_be_asked_for_by_kind() {
    let mut g: Graph<u8> = Graph::new();
    let root = g.add_placeholder();
    let a = Index::Public(1);
    let b = Index::Public(2);
    assert_eq!(g.pre_update_cache(root, cache(a, None, None, None, None, 0), 0), Ok(()));
    assert_eq!(g.pre_update_cache(root, cache(b, Some(a), None, Some(a), None, 0), 1), Ok(()));
    assert_eq!(g.depth_parent(b), Some(NodeIndex(1)));
    assert_eq!(g.depth_parent(a), Some(root));
    assert_eq!(g.depth_parent(root), None);
    assert_eq!(g.x_position_parent(b), None);
    assert_eq!(g.y_position_parent(b), Some(NodeIndex(1)));
    assert_eq!(g.graphic_parent(b), None);
    assert_eq!(g.edge_parent(b, Edge::Depth), Some(NodeIndex(1)));
    assert_eq!(g.depth_parent(Index::Public(99)), None);
    assert!(g.does_depth_edge_exist(a, b));
    assert!(!g.does_depth_edge_exist(b, a));
    assert!(g.does_position_edge_exist(a, b));
    assert!(!g.does_graphic_edge_exist(a, b));
    assert!(g.does_edge_exist(root, a, Edge::Depth));
    assert!(!g.does_edge_exist(Index::Public(99), a, Edge::Depth));
}

#[test]
fn a_depth_parent_that_would_close_a_cycle_is_refused() {
    let mut g: Graph<u8> = Graph::new();
    let root = g.add_placeholder();
    let a = Index::Public(1);
    let b = Index::Public(2);
    assert_eq!(g.pre_update_cache(root, cache(a, None, None, None, None, 0), 0), Ok(()));
    assert_eq!(g.pre_update_cache(root, cache(b, Some(a), None, None, None, 0), 1), Ok(()));
    // a cannot become a child of b, for b already descends from a.
    assert_eq!(g.pre_update_cache(root, cache(a, Some(b), None, None, None, 0), 2), Err(WouldCycle(Edge::Depth)));
    // Nor can a be placed by b through another kind of edge.
    assert_eq!(g.pre_update_cache(root, cache(a, None, Some(b), None, None, 0), 3), Err(WouldCycle(Edge::Position(Axis::X))));
    // Replacing b's own parent edge is no cycle: the edge into b does not count.
    assert_eq!(g.pre_update_cache(root, cache(b, None, None, None, None, 0), 4), Ok(()));
    assert_eq!(g.pre_update_cache(root, cache(a, Some(b), None, None, None, 0), 5), Ok(()));
    assert_eq!(g.depth_parent(a), Some(NodeIndex(2)));
}

#[test]
fn parents_and_children_walk_the_edges() {
    let mut g: Graph<u8> = Graph::new();
    let root = g.add_placeholder();
    let a = Index::Public(1);
    let b = Index::Public(2);
    assert_eq!(g.pre_update_cache(root, cache(a, None, None, None, None, 0), 0), Ok(()));
    assert_eq!(g.pre_update_cache(root, cache(b, None, Some(a), Some(a), Some(a), 0), 1), Ok(()));
    let mut ps: Vec<u32> = g.parents(b).iter().map(|&(_, n)| n.0).collect();
    ps.sort();
    assert_eq!(ps, vec![0, 1, 1, 1]);
    let depth: Vec<u32> = g.depth_children(root).iter().map(|&(_, n)| n.0).collect();
    assert_eq!(depth, vec![1, 2]);
    assert_eq!(g.children(a).len(), 3);
    assert_eq!(g.x_position_children(a).iter().map(|&(_, n)| n.0).collect::<Vec<_>>(), vec![2]);
    assert_eq!(g.y_position_children(a).iter().map(|&(_, n)| n.0).collect::<Vec<_>>(), vec![2]);
    assert_eq!(g.position_children(a).len(), 2);
    assert_eq!(g.graphic_children(a).iter().map(|&(_, n)| n.0).collect::<Vec<_>>(), vec![2]);
    assert_eq!(g.graphic_children(b).len(), 0);
    for (e, n) in g.parents(b) {
        assert_eq!(g.edge_endpoints(e), Some((n, NodeIndex(2))));
    }
    assert_eq!(g.parents(Index::Public(9)).len(), 0);
}

#[test]
fn parent_chains_go_up_to_the_root() {
    let mut g: Graph<u8> = Graph::new();
    let root = g.add_placeholder();
    let a = Index::Public(1);
    let b = Index::Public(2);
    let c = Index::Public(3);
    assert_eq!(g.pre_update_cache(root, cache(a, None, None, None, None, 0), 0), Ok(()));
    assert_eq!(g.pre_update_cache(root, cache(b, Some(a), None, None, Some(a), 0), 1), Ok(()));
    assert_eq!(g.pre_update_cache(root, cache(c, Some(b), None, None, Some(b), 0), 2), Ok(()));
    assert_eq!(g.depth_parent_recursion(c), vec![NodeIndex(2), NodeIndex(1), NodeIndex(0)]);
    assert_eq!(g.graphic_parent_recursion(c), vec![NodeIndex(2), NodeIndex(1)]);
    assert_eq!(g.x_position_parent_recursion(c), vec![]);
    assert_eq!(g.y_position_parent_recursion(c), vec![]);
    assert_eq!(g.depth_parent_recursion(root), vec![]);
    assert_eq!(g.edge_parent_recursion(Index::Public(9), Edge::Depth), vec![]);
    assert!(g.does_recursive_depth_edge_exist(root, c));
    assert!(g.does_recursive_depth_edge_exist(a, c));
    assert!(!g.does_recursive_depth_edge_exist(c, a));
    assert!(!g.does_recursive_depth_edge_exist(c, c));
    assert!(g.does_recursive_graphic_edge_exist(a, c));
    assert!(!g.does_recursive_graphic_edge_exist(root, c));
    assert!(g.does_recursive_edge_exist(b, c, Edge::Graphic));
    assert!(!g.does_recursive_edge_exist(Index::Public(9), c, Edge::Depth));
}

#[test]
fn picking_gives_the_topmost_widget_under_the_point() {
    let mut g: Graph<u8> = Graph::new();
    let root = g.add_placeholder();
    let a = Index::Public(1);
    let b = Index::Public(2);
    assert_eq!(g.pre_update_cache(root, cache(a, None, None, None, None, 0), 0), Ok(()));
    assert_eq!(g.pre_update_cache(root, cache(b, Some(a), None, None, Some(a), 0), 1), Ok(()));
    let order = [Visitable::Widget(root), Visitable::Widget(NodeIndex(1)), Visitable::Widget(NodeIndex(2)), Visitable::Scrollbar(NodeIndex(2))];
    // b is a graphic element of a, so a is picked.
    assert_eq!(pick_widget(&g, &order, &[true, true, true, false]), Some(a));
    // A scrollbar gives its own widget.
    assert_eq!(pick_widget(&g, &order, &[true, false, false, true]), Some(b));
    assert_eq!(pick_widget(&g, &order, &[true, false, false, false]), Some(Index::Internal(root)));
    assert_eq!(pick_widget(&g, &order, &[false, false, false, false]), None);
}

#[test]
fn the_cached_widget_and_geometry_can_be_read_back() {
    let mut g: Graph<u8> = Graph::new();
    let root = g.add_placeholder();
    let a = Index::Public(1);
    assert_eq!(g.pre_update_cache(root, cache(a, None, None, None, None, 42), 7), Ok(()));
    let c = g.widget(a).unwrap();
    assert_eq!(c.kind, "Button");
    assert_eq!(c.instantiation_order_idx, 7);
    assert_eq!(g.widget_geometry(a), Some(&42));
    assert!(g.widget(root).is_none());
    assert_eq!(g.widget_geometry(root), None);
    assert!(g.widget(Index::Public(5)).is_none());
}
