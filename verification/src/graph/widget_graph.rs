//! The widget graph: widget nodes cached in a directed acyclic graph whose edges say which widget
//! is the depth, position or graphic parent of which.

use vstd::prelude::*;
use crate::position::axis::Axis;
use crate::widget::{Id as WidgetId, Index, NodeIndex};
use super::{Edge, NUM_EDGE_VARIANTS};
use super::paths::{
    acyclic, reaches, not_into, lemma_reaches_subset, lemma_acyclic_subset, lemma_reaches_not_into,
};
use super::index_map::{GraphIndex, IndexMap, index_from_idx};
use super::dag::{
    Container, Node, WidgetDag, dag_nodes, dag_edges, swap_removed, dag_new, dag_add_node,
    dag_add_edge, dag_remove_edge, dag_edge_count, dag_edge_endpoints, dag_edge_weight,
    dag_set_node, dag_node_count, dag_node_weight, dag_with_capacity,
};

verus! {

/// An edge as (parent, child, kind).
pub type EdgeTriple = (u32, u32, Edge);

/// No child has two parent edges of the same kind.
pub open spec fn unique_parents(edges: Seq<EdgeTriple>) -> bool {
    forall|i: int, j: int|
        0 <= i < edges.len() && 0 <= j < edges.len() && i != j && #[trigger] edges[i].1
            == #[trigger] edges[j].1 ==> edges[i].2 != edges[j].2
}

/// Every edge joins two of the first `n` nodes.
pub open spec fn edges_within(edges: Seq<EdgeTriple>, n: nat) -> bool {
    forall|i: int| 0 <= i < edges.len() ==> #[trigger] edges[i].0 < n && edges[i].1 < n
}

/// The edges of `s`, with the parent edge of kind `k` into `c` replaced by one from `p`, or
/// removed where `p` is `None`.
pub open spec fn replace_parent(s: Set<EdgeTriple>, c: u32, k: Edge, p: Option<u32>) -> Set<
    EdgeTriple,
> {
    let kept = s.filter(|t: EdgeTriple| !(t.1 == c && t.2 == k));
    match p {
        Some(pp) => kept.insert((pp, c, k)),
        None => kept,
    }
}

/// The parents of `c` along edges of kind `k`.
pub open spec fn parents_of(s: Set<EdgeTriple>, c: u32, k: Edge) -> Set<u32> {
    Set::new(|p: u32| s.contains((p, c, k)))
}

/// Every widget id of the map names one of the first `n` nodes.
pub open spec fn map_within(map: IndexMap, n: nat) -> bool {
    forall|id: WidgetId| #[trigger] map.nodes().contains_key(id) ==> map.nodes()[id].0 < n
}

/// The number of widget nodes in `s`.
pub open spec fn widgets_in(s: Seq<Node>) -> nat
    decreases s.len(),
{
    if s.len() == 0 {
        0
    } else {
        widgets_in(s.drop_last()) + if s.last() is Widget {
            1nat
        } else {
            0nat
        }
    }
}

/// Every widget id mapped in `m0` is mapped to the same node in `m1`.
pub open spec fn map_extends(m0: IndexMap, m1: IndexMap) -> bool {
    forall|id: WidgetId| #[trigger]
        m0.nodes().contains_key(id) ==> m1.nodes().contains_key(id) && m1.nodes()[id]
            == m0.nodes()[id]
}

proof fn lemma_extends_trans(m0: IndexMap, m1: IndexMap, m2: IndexMap)
    requires
        map_extends(m0, m1),
        map_extends(m1, m2),
    ensures
        map_extends(m0, m2),
{
    assert forall|id: WidgetId| #[trigger] m0.nodes().contains_key(id) implies m2.nodes().contains_key(id)
        && m2.nodes()[id] == m0.nodes()[id] by {
        assert(m1.nodes().contains_key(id));
    }
}

/// The node that an index names within the map, by its number.
pub open spec fn node_of(map: IndexMap, i: Index) -> Option<u32> {
    match i.node_index_in(map) {
        Some(n) => Some(n.0),
        None => None,
    }
}

/// A widget of kind `old` may be cached again as kind `new`: only as the same kind, or where it
/// was left empty.
pub open spec fn kind_may_become(old: &'static str, new: &'static str) -> bool {
    old@ == new@ || old@ == "EMPTY"@
}

proof fn lemma_swap_removed(s: Seq<EdgeTriple>, k: int, n: nat)
    requires
        unique_parents(s),
        edges_within(s, n),
        0 <= k < s.len(),
    ensures
        unique_parents(swap_removed(s, k)),
        swap_removed(s, k).to_set() == replace_parent(s.to_set(), s[k].1, s[k].2, None),
        edges_within(swap_removed(s, k), n),
{
    let r = swap_removed(s, k);
    let last = s.len() - 1;
    assert(forall|j: int| 0 <= j < r.len() ==> r[j] == (if j == k { s[last] } else { s[j] }));
    assert forall|i: int, j: int|
        0 <= i < r.len() && 0 <= j < r.len() && i != j && #[trigger] r[i].1 == #[trigger] r[j].1
            implies r[i].2 != r[j].2 by {
        let si = if i == k { last } else { i };
        let sj = if j == k { last } else { j };
        assert(r[i] == s[si] && r[j] == s[sj]);
    }
    let goal = replace_parent(s.to_set(), s[k].1, s[k].2, None);
    assert forall|t: EdgeTriple| r.to_set().contains(t) <==> goal.contains(t) by {
        if r.to_set().contains(t) {
            let j = choose|j: int| 0 <= j < r.len() && r[j] == t;
            let sj = if j == k { last } else { j };
            assert(s[sj] == t);
            assert(s.contains(t));
            assert(sj != k);
        }
        if goal.contains(t) {
            let i = choose|i: int| 0 <= i < s.len() && s[i] == t;
            assert(i != k);
            if i == last {
                assert(r[k] == t);
                assert(r.contains(t));
            } else {
                assert(r[i] == t);
                assert(r.contains(t));
            }
        }
    }
    assert(r.to_set() =~= goal);
    assert forall|j: int| 0 <= j < r.len() implies #[trigger] r[j].0 < n && r[j].1 < n by {
        let sj = if j == k { last } else { j };
        assert(r[j] == s[sj]);
        assert(s[sj].0 < n);
    }
}

/// Edges and ids within the first `n` nodes stay within the first `n + 1`.
proof fn lemma_grown(edges: Seq<EdgeTriple>, map: IndexMap, n: nat)
    requires
        edges_within(edges, n),
        map_within(map, n),
    ensures
        edges_within(edges, n + 1),
        map_within(map, n + 1),
{
    assert forall|i: int| 0 <= i < edges.len() implies #[trigger] edges[i].0 < n + 1 && edges[i].1
        < n + 1 by {
        assert(edges[i].0 < n);
    }
    assert forall|id: WidgetId| #[trigger] map.nodes().contains_key(id) implies map.nodes()[id].0
        < n + 1 by {
        assert(map.nodes()[id].0 < n);
    }
}

proof fn lemma_push_set(s: Seq<EdgeTriple>, x: EdgeTriple)
    ensures
        s.push(x).to_set() == s.to_set().insert(x),
{
    let r = s.push(x);
    assert forall|t: EdgeTriple| r.to_set().contains(t) <==> s.to_set().insert(x).contains(t) by {
        if r.contains(t) {
            let j = choose|j: int| 0 <= j < r.len() && r[j] == t;
            if j < s.len() {
                assert(s[j] == t);
            }
        }
        if s.contains(t) {
            let i = choose|i: int| 0 <= i < s.len() && s[i] == t;
            assert(r[i] == t);
        }
        if t == x {
            assert(r[s.len() as int] == t);
        }
    }
    assert(r.to_set() =~= s.to_set().insert(x));
}

/// An index that resolves once the widget is cached names an existing node of the graph after
/// caching.
proof fn lemma_resolves(
    m0: IndexMap,
    m1: IndexMap,
    len0: nat,
    len1: nat,
    i: Option<Index>,
    idx: Index,
    parent: Option<Index>,
    node: u32,
)
    requires
        i matches Some(ii) ==> resolves_once_cached(m0, len0, ii, idx, parent),
        len0 <= len1,
        map_within(m1, len1),
        map_extends(m0, m1),
        node_of(m1, idx) == Some(node),
        node < len1,
        parent is Some ==> maybe_node_of(m1, parent) is Some,
    ensures
        i matches Some(ii) ==> node_of(m1, ii) matches Some(a) && a < len1,
{
    if let Some(ii) = i {
        if let Index::Public(id) = ii {
            if !m0.nodes().contains_key(id) && ii != idx {
                assert(m1.nodes().contains_key(id));
            } else if m0.nodes().contains_key(id) {
                assert(m1.nodes().contains_key(id));
            }
        }
    }
}

/// Where no edge of kind `k` goes into `c`, the replacement removes nothing.
proof fn lemma_no_parent(s: Seq<EdgeTriple>, c: u32, k: Edge)
    requires
        forall|i: int| 0 <= i < s.len() ==> !(#[trigger] s[i].1 == c && s[i].2 == k),
    ensures
        replace_parent(s.to_set(), c, k, None) == s.to_set(),
{
    assert forall|t: EdgeTriple| s.to_set().contains(t) implies !(t.1 == c && t.2 == k) by {
        let i = choose|i: int| 0 <= i < s.len() && s[i] == t;
        assert(s[i].1 == t.1);
    }
    assert(replace_parent(s.to_set(), c, k, None) =~= s.to_set());
}

/// Setting `p` (where there is one) as a parent of `n` makes no cycle: `p` cannot be reached
/// from `n` along the edges of `s` that do not end at `n` (nor is `p` the node `n` itself).
pub open spec fn no_cycle_to(s: Set<EdgeTriple>, n: u32, p: Option<u32>) -> bool {
    match p {
        Some(pp) => !reaches(not_into(s, n), n, pp),
        None => true,
    }
}

/// Replacing a parent of `c` leaves the edges that do not end at `c` as they were.
proof fn lemma_not_into_replaced(s: Set<EdgeTriple>, c: u32, k: Edge, p: Option<u32>)
    ensures
        not_into(replace_parent(s, c, k, p), c) == not_into(s, c),
        replace_parent(s, c, k, None).subset_of(s),
{
    assert(not_into(replace_parent(s, c, k, p), c) =~= not_into(s, c));
}

/// The edge `t` joins node `node` to another: as its child where `incoming`, otherwise as its
/// parent; and it is of kind `kind`, where a kind is given.
pub open spec fn edge_at(t: EdgeTriple, node: u32, incoming: bool, kind: Option<Edge>) -> bool {
    &&& (if incoming { t.1 == node } else { t.0 == node })
    &&& (kind matches Some(k) ==> t.2 == k)
}

/// The (edge index, node at the other end) of each of the first `upto` edges that join `node`
/// as `edge_at` says, in the order of their edge indices.
pub open spec fn edges_at(edges: Seq<EdgeTriple>, node: u32, incoming: bool, kind: Option<Edge>, upto: int) -> Seq<(u32, NodeIndex)>
    decreases upto,
{
    if upto <= 0 {
        Seq::empty()
    } else {
        let t = edges[upto - 1];
        let before = edges_at(edges, node, incoming, kind, upto - 1);
        if edge_at(t, node, incoming, kind) {
            before.push(((upto - 1) as u32, NodeIndex(if incoming { t.0 } else { t.1 })))
        } else {
            before
        }
    }
}

/// The (edge index, node) pairs that a walk over the edges into or out of `idx`'s node gives;
/// none where `idx` has no node.
pub open spec fn walk_of<G, I: GraphIndex>(g: Graph<G>, idx: I, incoming: bool, kind: Option<Edge>) -> Seq<(u32, NodeIndex)> {
    match idx.node_index_in(g.index_map()) {
        Some(n) => edges_at(g.edges(), n.0, incoming, kind, g.edges().len() as int),
        None => Seq::empty(),
    }
}

/// The node before the `i`th of a chain of parents from `start`: `start` itself, or the chain's
/// previous node.
pub open spec fn chain_prev(start: u32, chain: Seq<u32>, i: int) -> u32 {
    if i == 0 {
        start
    } else {
        chain[i - 1]
    }
}

/// The numbers of the given nodes.
pub open spec fn node_numbers(ns: Seq<NodeIndex>) -> Seq<u32> {
    Seq::new(ns.len(), |i: int| ns[i].0)
}

/// Where a chain of parents from `start` ends.
pub open spec fn chain_end(start: u32, chain: Seq<u32>) -> u32 {
    if chain.len() == 0 {
        start
    } else {
        chain.last()
    }
}

/// `chain` is a chain of parents along edges of kind `k` from `start`: each of its nodes is a
/// parent of the node before it.
pub open spec fn is_parent_chain(s: Set<EdgeTriple>, start: u32, k: Edge, chain: Seq<u32>) -> bool {
    forall|i: int| 0 <= i < chain.len() ==> s.contains((#[trigger] chain[i], chain_prev(start, chain, i), k))
}

/// Distinct node numbers below `n` are at most `n`.
proof fn lemma_distinct_below(xs: Seq<u32>, n: nat)
    requires
        xs.no_duplicates(),
        forall|i: int| 0 <= i < xs.len() ==> #[trigger] xs[i] < n,
    ensures
        xs.len() <= n,
{
    let ints = xs.map_values(|x: u32| x as int);
    assert(ints.no_duplicates()) by {
        assert forall|i: int, j: int| 0 <= i < ints.len() && 0 <= j < ints.len() && i != j implies ints[i] != ints[j] by {
            assert(xs[i] != xs[j]);
        }
    }
    ints.unique_seq_to_set();
    vstd::set_lib::lemma_int_range(0, n as int);
    assert(ints.to_set().subset_of(vstd::set_lib::set_int_range(0, n as int))) by {
        assert forall|x: int| ints.to_set().contains(x) implies vstd::set_lib::set_int_range(0, n as int).contains(x) by {
            let i = choose|i: int| 0 <= i < ints.len() && ints[i] == x;
            assert(xs[i] < n);
        }
    }
    vstd::set_lib::lemma_len_subset(ints.to_set(), vstd::set_lib::set_int_range(0, n as int));
}

/// Along a chain of parents, the later node reaches the earlier one.
proof fn lemma_chain_reaches(s: Set<EdgeTriple>, start: u32, k: Edge, chain: Seq<u32>, i: int, j: int)
    requires
        is_parent_chain(s, start, k, chain),
        0 <= i <= j <= chain.len(),
    ensures
        reaches(s, chain_prev(start, chain, j), chain_prev(start, chain, i)),
    decreases j - i,
{
    let a = chain_prev(start, chain, i);
    if i == j {
        assert(super::paths::is_path(s, Seq::<EdgeTriple>::empty(), a, a));
    } else {
        lemma_chain_reaches(s, start, k, chain, i, j - 1);
        let b = chain_prev(start, chain, j - 1);
        let path = choose|path: Seq<EdgeTriple>| super::paths::is_path(s, path, b, a);
        let e = (chain[j - 1], b, k);
        assert(s.contains(e));
        let longer = seq![e] + path;
        assert(longer[0] == e);
        assert forall|m: int| 0 <= m < longer.len() implies s.contains(#[trigger] longer[m]) by {
            if m > 0 {
                assert(longer[m] == path[m - 1]);
            }
        }
        assert forall|m: int| 0 <= m < longer.len() - 1 implies (#[trigger] longer[m]).1 == longer[m + 1].0 by {
            if m > 0 {
                assert(longer[m] == path[m - 1]);
            }
            assert(longer[m + 1] == path[m]);
        }
        if path.len() > 0 {
            assert(longer.last() == path.last());
        }
        assert(super::paths::is_path(s, longer, chain_prev(start, chain, j), a));
    }
}

/// Along edges of kind `k`, each node of `s` has at most one parent.
pub open spec fn one_parent_per_kind(s: Set<EdgeTriple>, k: Edge) -> bool {
    forall|p1: u32, p2: u32, c: u32| #[trigger] s.contains((p1, c, k)) && #[trigger] s.contains((p2, c, k)) ==> p1 == p2
}

/// Every prefix of a chain of parents, up to and including its `i`th node, is a chain of parents.
proof fn lemma_chain_prefix(s: Set<EdgeTriple>, start: u32, k: Edge, chain: Seq<u32>, i: int)
    requires
        is_parent_chain(s, start, k, chain),
        0 <= i < chain.len(),
    ensures
        exists|ch: Seq<u32>| is_parent_chain(s, start, k, ch) && ch.len() > 0 && ch.last() == chain[i],
{
    let ch = chain.take(i + 1);
    assert forall|j: int| 0 <= j < ch.len() implies s.contains((#[trigger] ch[j], chain_prev(start, ch, j), k)) by {
        assert(ch[j] == chain[j]);
        if j > 0 {
            assert(ch[j - 1] == chain[j - 1]);
        }
        assert(chain_prev(start, ch, j) == chain_prev(start, chain, j));
        assert(s.contains((chain[j], chain_prev(start, chain, j), k)));
    }
    assert(is_parent_chain(s, start, k, ch) && ch.len() > 0 && ch.last() == chain[i]);
}

/// A chain of parents agrees with a chain that goes up to a node without parent, as far as it
/// goes, where each node has at most one parent.
proof fn lemma_chain_agrees(s: Set<EdgeTriple>, start: u32, k: Edge, ch: Seq<u32>, full: Seq<u32>, m: int)
    requires
        one_parent_per_kind(s, k),
        is_parent_chain(s, start, k, ch),
        is_parent_chain(s, start, k, full),
        parents_of(s, chain_end(start, full), k) == Set::<u32>::empty(),
        0 <= m <= ch.len(),
    ensures
        m <= full.len(),
        forall|i: int| 0 <= i < m ==> ch[i] == full[i],
    decreases m,
{
    if m > 0 {
        lemma_chain_agrees(s, start, k, ch, full, m - 1);
        let c = chain_prev(start, ch, m - 1);
        assert(c == chain_prev(start, full, m - 1));
        assert(s.contains((ch[m - 1], c, k)));
        if m - 1 == full.len() {
            assert(c == chain_end(start, full));
            assert(parents_of(s, c, k).contains(ch[m - 1]));
        } else {
            assert(s.contains((full[m - 1], chain_prev(start, full, m - 1), k)));
        }
    }
}

/// `r` is the chain of parents of `idx`'s node along edges of kind `edge`, nearest first, up to
/// a node without such a parent; empty where `idx` has no node.
pub open spec fn is_parent_walk<G, I: GraphIndex>(g: Graph<G>, idx: I, edge: Edge, r: Seq<NodeIndex>) -> bool {
    match idx.node_index_in(g.index_map()) {
        Some(c) => {
            &&& is_parent_chain(g.edge_set(), c.0, edge, node_numbers(r))
            &&& parents_of(g.edge_set(), chain_end(c.0, node_numbers(r)), edge) == Set::<u32>::empty()
        },
        None => r.len() == 0,
    }
}

/// The node that an optional index names within the map, if both are there.
pub open spec fn maybe_node_of(map: IndexMap, i: Option<Index>) -> Option<u32> {
    match i {
        Some(ii) => node_of(map, ii),
        None => None,
    }
}

/// The index names an existing node, or will once the widget is cached: an internal index must
/// name an existing node; a widget id must be mapped already, or be the widget's own id or its
/// parent's.
pub open spec fn resolves_once_cached(map: IndexMap, n_nodes: nat, i: Index, idx: Index, parent: Option<Index>) -> bool {
    match i {
        Index::Internal(n) => n.0 < n_nodes,
        Index::Public(id) => map.nodes().contains_key(id) || i == idx || parent == Some(i),
    }
}

/// What caching a widget asks of the graph, without which the widget cannot be cached: the root
/// and every internal index name existing nodes, every index that the widget is placed by
/// resolves once the widget is cached, an existing widget at the index is of the same kind (or
/// of none), and there is room for two more nodes and four more edges.
pub open spec fn can_cache<G>(g: Graph<G>, root: NodeIndex, w: PreUpdateCache<G>) -> bool {
    let len = g.nodes().len();
    let map = g.index_map();
    &&& root.0 < len
    &&& len + 2 < u32::MAX
    &&& g.edges().len() + 4 < u32::MAX
    &&& (w.idx matches Index::Internal(n) ==> n.0 < len)
    &&& (w.maybe_parent_idx matches Some(Index::Internal(n)) ==> n.0 < len)
    &&& (w.maybe_x_positioned_relatively_idx matches Some(i) ==> resolves_once_cached(map, len, i, w.idx, w.maybe_parent_idx))
    &&& (w.maybe_y_positioned_relatively_idx matches Some(i) ==> resolves_once_cached(map, len, i, w.idx, w.maybe_parent_idx))
    &&& (w.maybe_graphics_for matches Some(i) ==> resolves_once_cached(map, len, i, w.idx, w.maybe_parent_idx))
    &&& (match node_of(map, w.idx) {
        Some(n) => match g.nodes()[n as int] {
            Node::Widget(c) => kind_may_become(c.kind, w.kind),
            Node::Placeholder => true,
        },
        None => true,
    })
}

/// The depth parent that caching gives a widget at node `n`, over the map after caching.
pub open spec fn depth_parent_of(map: IndexMap, parent: Option<Index>, n: u32, root: NodeIndex) -> Option<u32> {
    match parent {
        Some(p) => node_of(map, p),
        None => if n == root.0 {
            None
        } else {
            Some(root.0)
        },
    }
}

/// The edges after caching a widget at node `n`: its depth parent set (where it has one), and
/// its x and y position parents and graphic parent replaced by those the widget names.
pub open spec fn cached_edges<G>(s: Set<EdgeTriple>, map: IndexMap, n: u32, root: NodeIndex, w: PreUpdateCache<G>) -> Set<EdgeTriple> {
    let with_depth = match depth_parent_of(map, w.maybe_parent_idx, n, root) {
        Some(p) => replace_parent(s, n, Edge::Depth, Some(p)),
        None => s,
    };
    let with_x = replace_parent(with_depth, n, Edge::Position(Axis::X), maybe_node_of(map, w.maybe_x_positioned_relatively_idx));
    let with_y = replace_parent(with_x, n, Edge::Position(Axis::Y), maybe_node_of(map, w.maybe_y_positioned_relatively_idx));
    replace_parent(with_y, n, Edge::Graphic, maybe_node_of(map, w.maybe_graphics_for))
}

/// The node at which a widget is cached: the node its index names, or a new one.
pub open spec fn node_to_cache<G>(g: Graph<G>, idx: Index) -> u32 {
    match node_of(g.index_map(), idx) {
        Some(n0) => n0,
        None => g.nodes().len() as u32,
    }
}

/// The widget ids that `m1` maps and `m0` does not map name nodes added after the first
/// `len0`.
pub open spec fn new_ids_name_new_nodes(m0: IndexMap, m1: IndexMap, len0: nat) -> bool {
    forall|id: WidgetId| #[trigger] m1.nodes().contains_key(id) && !m0.nodes().contains_key(id)
        ==> m1.nodes()[id].0 >= len0
}

/// Caching the widget makes no cycle: none of the parents it names for its node (over the map
/// after caching) can be reached from that node along the edges of `s` that do not end at it.
pub open spec fn cache_makes_no_cycle<G>(s: Set<EdgeTriple>, map: IndexMap, root: NodeIndex, w: PreUpdateCache<G>) -> bool {
    let n = node_of(map, w.idx)->0;
    &&& no_cycle_to(s, n, depth_parent_of(map, w.maybe_parent_idx, n, root))
    &&& no_cycle_to(s, n, maybe_node_of(map, w.maybe_x_positioned_relatively_idx))
    &&& no_cycle_to(s, n, maybe_node_of(map, w.maybe_y_positioned_relatively_idx))
    &&& no_cycle_to(s, n, maybe_node_of(map, w.maybe_graphics_for))
}

/// The graph `g1` is `g0` with the widget cached at the node of its index.
pub open spec fn cached<G>(g0: Graph<G>, g1: Graph<G>, root: NodeIndex, w: PreUpdateCache<G>, instantiation_order_idx: usize) -> bool {
    let m1 = g1.index_map();
    &&& node_of(m1, w.idx) == Some(
        match node_of(g0.index_map(), w.idx) {
            Some(n0) => n0,
            None => g0.nodes().len() as u32,
        },
    )
    &&& {
        let n = node_of(m1, w.idx)->0;
        &&& n < g1.nodes().len()
        &&& g1.nodes()[n as int] == Node::Widget(Container { kind: w.kind, instantiation_order_idx })
        &&& g1.geometry()[n as int] == Some(w.geometry)
        &&& forall|i: int| 0 <= i < g0.nodes().len() && i != n ==> #[trigger] g1.nodes()[i] == g0.nodes()[i] && g1.geometry()[i] == g0.geometry()[i]
        &&& forall|i: int| g0.nodes().len() <= i < g1.nodes().len() && i != n ==> #[trigger] g1.nodes()[i] == Node::Placeholder
        &&& g1.edge_set() == cached_edges(g0.edge_set(), m1, n, root, w)
    }
    &&& g0.nodes().len() <= g1.nodes().len()
    &&& map_extends(g0.index_map(), m1)
}

/// The state of a widget that is cached into the graph before the widget updates: its kind,
/// its index, the indices of the widgets it is placed by, and its geometry (rectangle, depth,
/// kid area, drag, floating and scroll state), of which the graph only keeps a copy.
pub struct PreUpdateCache<G> {
    /// The kind of widget.
    pub kind: &'static str,
    /// The widget's index.
    pub idx: Index,
    /// The widget's depth parent, if it has one; otherwise the graph's root is.
    pub maybe_parent_idx: Option<Index>,
    /// The widget that this one is positioned relatively to along the x axis.
    pub maybe_x_positioned_relatively_idx: Option<Index>,
    /// The widget that this one is positioned relatively to along the y axis.
    pub maybe_y_positioned_relatively_idx: Option<Index>,
    /// The widget that this one is a graphical element of.
    pub maybe_graphics_for: Option<Index>,
    /// The widget's geometry.
    pub geometry: G,
}

/// An edge could not be added because it would have made the graph cycle; it holds the edge.
#[derive(Clone, Copy, Debug, PartialEq, Eq, Structural)]
pub struct WouldCycle(pub Edge);

/// Stores the cached state of a UI tree of widgets.
pub struct Graph<G> {
    /// Cached widgets in a directed acyclic graph whose edges describe the rendering tree and
    /// positioning.
    dag: WidgetDag,
    /// A map of the widget ids to the graph's node indices.
    index_map: IndexMap,
    /// The geometry cached for each node, by node index.
    geometry: Vec<Option<G>>,
}

impl<G> Graph<G> {
    /// The nodes, by node index.
    pub closed spec fn nodes(&self) -> Seq<Node> {
        dag_nodes(self.dag)
    }

    /// The edges, by edge index.
    pub closed spec fn edges(&self) -> Seq<EdgeTriple> {
        dag_edges(self.dag)
    }

    /// The set of edges.
    pub open spec fn edge_set(&self) -> Set<EdgeTriple> {
        self.edges().to_set()
    }

    /// The cached geometry of each node, by node index.
    pub closed spec fn geometry(&self) -> Seq<Option<G>> {
        self.geometry@
    }

    /// The map between widget ids and nodes.
    pub closed spec fn index_map(&self) -> IndexMap {
        self.index_map
    }

    /// The graph's invariant: a geometry slot per node, edges between existing nodes, no cycle,
    /// at most one parent of each kind per node, and ids that map to existing nodes.
    pub open spec fn wf(&self) -> bool {
        &&& acyclic(self.edge_set())
        &&& self.geometry().len() == self.nodes().len()
        &&& self.nodes().len() < u32::MAX
        &&& self.edges().len() < u32::MAX
        &&& edges_within(self.edges(), self.nodes().len())
        &&& unique_parents(self.edges())
        &&& map_within(self.index_map(), self.nodes().len())
    }

    /// A new empty **Graph**.
    pub fn new() -> (g: Self)
        ensures
            g.wf(),
            g.nodes() == Seq::<Node>::empty(),
            g.edges() == Seq::<EdgeTriple>::empty(),
            g.index_map().nodes() == Map::<WidgetId, NodeIndex>::empty(),
    {
        let g = Graph { dag: dag_new(), index_map: IndexMap::with_capacity(0), geometry: Vec::new() };
        assert(g.edge_set() =~= Set::<EdgeTriple>::empty());
        g
    }

    /// A new empty **Graph** with room for the given number of nodes, and for as many edges of
    /// each of the edge kinds.
    pub fn with_node_capacity(n_nodes: usize) -> (g: Self)
        requires
            n_nodes * NUM_EDGE_VARIANTS <= usize::MAX,
        ensures
            g.wf(),
            g.nodes() == Seq::<Node>::empty(),
            g.edges() == Seq::<EdgeTriple>::empty(),
            g.index_map().nodes() == Map::<WidgetId, NodeIndex>::empty(),
    {
        let n_edges = n_nodes * NUM_EDGE_VARIANTS;
        let g = Graph {
            dag: dag_with_capacity(n_nodes, n_edges),
            index_map: IndexMap::with_capacity(n_nodes),
            geometry: Vec::new(),
        };
        assert(g.edge_set() =~= Set::<EdgeTriple>::empty());
        g
    }

    /// The index of the parent edge of kind `edge` into `child`, if there is one.
    fn find_parent_edge(&self, child: u32, edge: Edge) -> (r: Option<u32>)
        requires
            self.wf(),
        ensures
            match r {
                Some(k) => k < self.edges().len() && self.edges()[k as int].1 == child
                    && self.edges()[k as int].2 == edge,
                None => forall|i: int|
                    0 <= i < self.edges().len() ==> !(#[trigger] self.edges()[i].1 == child
                        && self.edges()[i].2 == edge),
            },
    {
        let count = dag_edge_count(&self.dag);
        let mut i: usize = 0;
        while i < count
            invariant
                self.wf(),
                count == self.edges().len(),
                i <= count,
                forall|j: int|
                    0 <= j < i ==> !(#[trigger] self.edges()[j].1 == child && self.edges()[j].2
                        == edge),
            decreases count - i,
        {
            let e = i as u32;
            match (dag_edge_endpoints(&self.dag, e), dag_edge_weight(&self.dag, e)) {
                (Some((_, b)), Some(w)) => {
                    if b == child && w == edge {
                        return Some(e);
                    }
                },
                _ => {},
            }
            i = i + 1;
        }
        None
    }

    /// Remove the parent edge of kind `edge` into node `child`, if there is one.
    fn remove_parent_of(&mut self, child: u32, edge: Edge)
        requires
            old(self).wf(),
        ensures
            final(self).wf(),
            final(self).nodes() == old(self).nodes(),
            final(self).geometry() == old(self).geometry(),
            final(self).index_map() == old(self).index_map(),
            final(self).edges().len() <= old(self).edges().len(),
            final(self).edge_set() == replace_parent(old(self).edge_set(), child, edge, None),
    {
        match self.find_parent_edge(child, edge) {
            Some(k) => {
                proof {
                    lemma_swap_removed(self.edges(), k as int, self.nodes().len());
                }
                dag_remove_edge(&mut self.dag, k);
                proof {
                    lemma_acyclic_subset(self.edge_set(), old(self).edge_set());
                }
            },
            None => {
                proof {
                    lemma_no_parent(self.edges(), child, edge);
                }
            },
        }
    }

    /// Set the parent edge of kind `edge` into `b` to come from `a`: an edge of that kind from
    /// another parent is removed first. Answers `false`, with the old edge removed and no new one
    /// added, where the new edge would make the graph cycle.
    #[verifier::spinoff_prover]
    fn set_edge(&mut self, a: u32, b: u32, edge: Edge) -> (ok: bool)
        requires
            old(self).wf(),
            a < old(self).nodes().len(),
            b < old(self).nodes().len(),
            old(self).edges().len() + 1 < u32::MAX,
        ensures
            final(self).wf(),
            final(self).nodes() == old(self).nodes(),
            final(self).geometry() == old(self).geometry(),
            final(self).index_map() == old(self).index_map(),
            final(self).edges().len() <= old(self).edges().len() + 1,
            final(self).edge_set() == replace_parent(
                old(self).edge_set(),
                b,
                edge,
                if ok { Some(a) } else { None },
            ),
            ok <==> !reaches(not_into(old(self).edge_set(), b), b, a),
            not_into(final(self).edge_set(), b) == not_into(old(self).edge_set(), b),
    {
        let ghost s0 = self.edge_set();
        match self.find_parent_edge(b, edge) {
            Some(k) => {
                let ends = dag_edge_endpoints(&self.dag, k);
                if let Some((p, _)) = ends {
                    if p == a {
                        assert(self.edge_set().contains(self.edges()[k as int]));
                        assert(replace_parent(s0, b, edge, Some(a)) =~= s0) by {
                            assert forall|t: EdgeTriple| #[trigger] s0.contains(t) && t.1 == b
                                && t.2 == edge implies t == (a, b, edge) by {
                                let i = choose|i: int|
                                    0 <= i < self.edges().len() && self.edges()[i] == t;
                                assert(self.edges()[i].1 == self.edges()[k as int].1);
                            }
                        }
                        proof {
                            if reaches(not_into(s0, b), b, a) {
                                lemma_reaches_subset(not_into(s0, b), s0, b, a);
                                assert(s0.contains((a, b, edge)));
                            }
                        }
                        return true;
                    }
                }
                self.remove_parent_of(b, edge);
            },
            None => {
                proof {
                    lemma_no_parent(self.edges(), b, edge);
                }
            },
        }
        let ghost s1 = self.edge_set();
        let ghost e1 = self.edges();
        assert(s1 == replace_parent(s0, b, edge, None));
        assert(edges_within(e1, self.nodes().len()));
        proof {
            lemma_not_into_replaced(s0, b, edge, None);
            lemma_reaches_not_into(s1, b, a);
        }
        let ok = dag_add_edge(&mut self.dag, a, b, edge);
        proof {
            if ok {
                lemma_not_into_replaced(s0, b, edge, Some(a));
            }
        }
        if ok {
            proof {
                lemma_push_set(e1, (a, b, edge));
                assert forall|i: int|
                    0 <= i < e1.len() implies !(#[trigger] e1[i].1 == b && e1[i].2 == edge) by {
                    assert(s1.contains(e1[i]));
                }
                assert(self.edges() == e1.push((a, b, edge)));
                assert(unique_parents(self.edges())) by {
                    assert forall|i: int, j: int|
                        0 <= i < self.edges().len() && 0 <= j < self.edges().len() && i != j
                            && #[trigger] self.edges()[i].1 == #[trigger] self.edges()[j].1
                            implies self.edges()[i].2 != self.edges()[j].2 by {
                        if i < e1.len() && j < e1.len() {
                            assert(self.edges()[i] == e1[i] && self.edges()[j] == e1[j]);
                        }
                    }
                }
                assert(edges_within(self.edges(), self.nodes().len())) by {
                    assert forall|i: int| 0 <= i < self.edges().len() implies #[trigger]
                        self.edges()[i].0 < self.nodes().len() && self.edges()[i].1
                            < self.nodes().len() by {
                        if i < e1.len() {
                            assert(self.edges()[i] == e1[i]);
                            assert(e1[i].0 < self.nodes().len() && e1[i].1 < self.nodes().len());
                        } else {
                            assert(self.edges()[i] == (a, b, edge));
                        }
                    }
                }
                assert(replace_parent(s0, b, edge, Some(a)) =~= s1.insert((a, b, edge)));
            }
        }
        ok
    }
    /// Add a new placeholder node and return its index.
    pub fn add_placeholder(&mut self) -> (r: NodeIndex)
        requires
            old(self).wf(),
            old(self).nodes().len() + 1 < u32::MAX,
        ensures
            final(self).wf(),
            r.0 == old(self).nodes().len(),
            final(self).nodes() == old(self).nodes().push(Node::Placeholder),
            final(self).geometry() == old(self).geometry().push(None),
            final(self).edges() == old(self).edges(),
            final(self).index_map() == old(self).index_map(),
    {
        let n = dag_add_node(&mut self.dag, Node::Placeholder);
        self.geometry.push(None);
        proof {
            lemma_grown(self.edges(), self.index_map(), (self.nodes().len() - 1) as nat);
        }
        NodeIndex(n)
    }

    /// The depth parent of a widget about to be cached: the node of the given parent index, for
    /// which a placeholder is added (and mapped, for a widget id) where the graph has none yet;
    /// without a parent index, the root, unless the widget is the root.
    fn resolve_depth_parent(&mut self, maybe_parent_idx: Option<Index>, idx: Index, root: u32) -> (r:
        Option<u32>)
        requires
            old(self).wf(),
            old(self).nodes().len() + 1 < u32::MAX,
            root < old(self).nodes().len(),
            maybe_parent_idx matches Some(Index::Internal(n)) ==> n.0 < old(self).nodes().len(),
        ensures
            final(self).wf(),
            final(self).edges() == old(self).edges(),
            final(self).nodes() == old(self).nodes() || final(self).nodes() == old(self).nodes().push(Node::Placeholder),
            final(self).geometry() == old(self).geometry() || final(self).geometry() == old(self).geometry().push(None),
            final(self).nodes().len() == final(self).geometry().len(),
            map_extends(old(self).index_map(), final(self).index_map()),
            forall|id: WidgetId|
                #[trigger] final(self).index_map().nodes().contains_key(id) && !old(self).index_map().nodes().contains_key(id) ==> maybe_parent_idx == Some(
                    Index::Public(id),
                ) && final(self).index_map().nodes()[id].0 == old(self).nodes().len(),
            r == (match maybe_parent_idx {
                Some(p) => node_of(final(self).index_map(), p),
                None => match node_of(final(self).index_map(), idx) {
                    Some(n) => if n == root {
                        None
                    } else {
                        Some(root)
                    },
                    None => None,
                },
            }),
            r matches Some(p) ==> p < final(self).nodes().len(),
            maybe_parent_idx is Some ==> r is Some,
    {
        match maybe_parent_idx {
            Some(parent_idx) => match parent_idx.to_node_index(&self.index_map) {
                Some(n) => Some(n.0),
                None => {
                    let n = self.add_placeholder();
                    if let Index::Public(parent_widget_id) = parent_idx {
                        self.index_map.insert(parent_widget_id, n);
                        proof {
                            let m = self.index_map();
                            assert(map_within(m, self.nodes().len())) by {
                                assert forall|id: WidgetId| #[trigger]
                                    m.nodes().contains_key(id) implies m.nodes()[id].0
                                    < self.nodes().len() by {
                                    if id != parent_widget_id {
                                        assert(old(self).index_map().nodes().contains_key(id));
                                    }
                                }
                            }
                        }
                    }
                    Some(n.0)
                },
            },
            None => match idx.to_node_index(&self.index_map) {
                Some(n) => if n.0 == root {
                    None
                } else {
                    Some(root)
                },
                None => None,
            },
        }
    }

    /// Place node `node` relatively to the node of the given index along edges of kind `edge`,
    /// or remove its parent edge of that kind where no index is given. Answers `false` where the
    /// edge would make the graph cycle.
    fn place(&mut self, maybe_rel: Option<Index>, node: u32, edge: Edge) -> (ok: bool)
        requires
            old(self).wf(),
            node < old(self).nodes().len(),
            old(self).edges().len() + 1 < u32::MAX,
            maybe_rel matches Some(ri) ==> node_of(old(self).index_map(), ri) matches Some(a) && a
                < old(self).nodes().len(),
        ensures
            final(self).wf(),
            final(self).nodes() == old(self).nodes(),
            final(self).geometry() == old(self).geometry(),
            final(self).index_map() == old(self).index_map(),
            final(self).edges().len() <= old(self).edges().len() + 1,
            ok ==> final(self).edge_set() == replace_parent(
                old(self).edge_set(),
                node,
                edge,
                maybe_node_of(old(self).index_map(), maybe_rel),
            ),
            ok <==> no_cycle_to(old(self).edge_set(), node, maybe_node_of(old(self).index_map(), maybe_rel)),
            not_into(final(self).edge_set(), node) == not_into(old(self).edge_set(), node),
    {
        match maybe_rel {
            Some(ri) => match ri.to_node_index(&self.index_map) {
                Some(a) => self.set_edge(a.0, node, edge),
                None => false,
            },
            None => {
                self.remove_parent_of(node, edge);
                proof {
                    lemma_not_into_replaced(old(self).edge_set(), node, edge, None);
                }
                true
            },
        }
    }

    /// Cache some `PreUpdateCache` widget data into the graph: the widget's node (added where
    /// the widget id has none yet) becomes a widget of the given kind and geometry, and its depth,
    /// position and graphic parents are set as the cache names them. An error tells of an edge
    /// that would have made the graph cycle; the graph is then left well formed, with the caching
    /// only partly done.
    pub fn pre_update_cache(
        &mut self,
        root: NodeIndex,
        widget: PreUpdateCache<G>,
        instantiation_order_idx: usize,
    ) -> (r: Result<(), WouldCycle>)
        requires
            old(self).wf(),
            can_cache(*old(self), root, widget),
        ensures
            final(self).wf(),
            node_of(final(self).index_map(), widget.idx) == Some(node_to_cache(*old(self), widget.idx)),
            map_extends(old(self).index_map(), final(self).index_map()),
            new_ids_name_new_nodes(old(self).index_map(), final(self).index_map(), old(self).nodes().len()),
            r is Ok <==> cache_makes_no_cycle(old(self).edge_set(), final(self).index_map(), root, widget),
            r is Ok ==> cached(*old(self), *final(self), root, widget, instantiation_order_idx),
    {
        let ghost s0 = self.edge_set();
        let ghost w = widget;
        let PreUpdateCache {
            kind,
            idx,
            maybe_parent_idx,
            maybe_x_positioned_relatively_idx,
            maybe_y_positioned_relatively_idx,
            maybe_graphics_for,
            geometry,
        } = widget;
        let new_node = Node::Widget(Container { kind, instantiation_order_idx });
        let node: u32 = match idx.to_node_index(&self.index_map) {
            Some(n) => {
                let parent = self.resolve_depth_parent(maybe_parent_idx, idx, root.0);
                let ghost g1 = *self;
                proof {
                    assert(node_of(self.index_map(), idx) == Some(n.0)) by {
                        if let Index::Public(i) = idx {
                            assert(old(self).index_map().nodes().contains_key(i));
                        }
                    }
                    assert(self.edge_set() == s0);
                    assert(parent == depth_parent_of(self.index_map(), maybe_parent_idx, n.0, root));
                }
                if let Some(p) = parent {
                    if !self.set_edge(p, n.0, Edge::Depth) {
                        return Err(WouldCycle(Edge::Depth));
                    }
                }
                dag_set_node(&mut self.dag, n.0, new_node);
                self.geometry.set(n.0 as usize, Some(geometry));
                proof {
                    assert(self.edge_set() == (match parent {
                        Some(p) => replace_parent(g1.edge_set(), n.0, Edge::Depth, Some(p)),
                        None => g1.edge_set(),
                    }));
                }
                n.0
            },
            None => {
                let id = match idx {
                    Index::Public(id) => id,
                    Index::Internal(_) => {
                        return Err(WouldCycle(Edge::Depth));
                    },
                };
                let n = dag_add_node(&mut self.dag, new_node);
                self.geometry.push(Some(geometry));
                self.index_map.insert(id, NodeIndex(n));
                proof {
                    lemma_grown(self.edges(), old(self).index_map(), (self.nodes().len() - 1) as nat);
                    let m = self.index_map();
                    assert(map_extends(old(self).index_map(), m)) by {
                        assert forall|i: WidgetId| #[trigger] old(self).index_map().nodes().contains_key(i)
                            implies m.nodes().contains_key(i) && m.nodes()[i] == old(self).index_map().nodes()[i] by {
                            assert(i != id);
                        }
                    }
                    assert(map_within(m, self.nodes().len())) by {
                        assert forall|i: WidgetId| #[trigger]
                            m.nodes().contains_key(i) implies m.nodes()[i].0
                            < self.nodes().len() by {
                            if i != id {
                                assert(old(self).index_map().nodes().contains_key(i));
                            }
                        }
                    }
                }
                let ghost m_inserted = self.index_map();
                let parent = self.resolve_depth_parent(maybe_parent_idx, idx, root.0);
                proof {
                    lemma_extends_trans(old(self).index_map(), m_inserted, self.index_map());
                    assert(m_inserted.nodes().contains_key(id));
                    assert(node_of(self.index_map(), idx) == Some(n));
                    let m0 = old(self).index_map();
                    let m1 = self.index_map();
                    assert(new_ids_name_new_nodes(m0, m1, old(self).nodes().len())) by {
                        assert forall|i: WidgetId| #[trigger] m1.nodes().contains_key(i) && !m0.nodes().contains_key(i)
                            implies m1.nodes()[i].0 >= old(self).nodes().len() by {
                            if m_inserted.nodes().contains_key(i) {
                                assert(i == id);
                            }
                        }
                    }
                    assert(self.edge_set() == s0);
                    assert(parent == depth_parent_of(self.index_map(), maybe_parent_idx, n, root));
                }
                if let Some(p) = parent {
                    if !self.set_edge(p, n, Edge::Depth) {
                        return Err(WouldCycle(Edge::Depth));
                    }
                }
                n
            },
        };
        let ghost g2 = *self;
        proof {
            lemma_resolves(old(self).index_map(), self.index_map(), old(self).nodes().len(), self.nodes().len(), maybe_x_positioned_relatively_idx, idx, maybe_parent_idx, node);
            lemma_resolves(old(self).index_map(), self.index_map(), old(self).nodes().len(), self.nodes().len(), maybe_y_positioned_relatively_idx, idx, maybe_parent_idx, node);
            lemma_resolves(old(self).index_map(), self.index_map(), old(self).nodes().len(), self.nodes().len(), maybe_graphics_for, idx, maybe_parent_idx, node);
        }
        assert(not_into(self.edge_set(), node) == not_into(s0, node));
        assert(no_cycle_to(s0, node, depth_parent_of(self.index_map(), maybe_parent_idx, node, root)));
        if !self.place(maybe_x_positioned_relatively_idx, node, Edge::Position(Axis::X)) {
            return Err(WouldCycle(Edge::Position(Axis::X)));
        }
        assert(not_into(self.edge_set(), node) == not_into(s0, node));
        if !self.place(maybe_y_positioned_relatively_idx, node, Edge::Position(Axis::Y)) {
            return Err(WouldCycle(Edge::Position(Axis::Y)));
        }
        assert(not_into(self.edge_set(), node) == not_into(s0, node));
        if !self.place(maybe_graphics_for, node, Edge::Graphic) {
            return Err(WouldCycle(Edge::Graphic));
        }
        Ok(())
    }

    /// The total number of **Node**s in the **Graph**.
    pub fn node_count(&self) -> (r: usize)
        ensures
            r == self.nodes().len(),
    {
        dag_node_count(&self.dag)
    }

    /// The total number of **Edge**s in the **Graph**.
    pub fn edge_count(&self) -> (r: usize)
        ensures
            r == self.edges().len(),
    {
        dag_edge_count(&self.dag)
    }

    /// The total number of **Node::Widget**s in the **Graph**.
    pub fn widget_count(&self) -> (r: usize)
        requires
            self.wf(),
        ensures
            r == widgets_in(self.nodes()),
    {
        let count = dag_node_count(&self.dag);
        let mut widgets: usize = 0;
        let mut i: usize = 0;
        while i < count
            invariant
                self.wf(),
                count == self.nodes().len(),
                i <= count,
                widgets == widgets_in(self.nodes().take(i as int)),
                widgets <= i,
            decreases count - i,
        {
            proof {
                assert(self.nodes().take(i as int + 1).drop_last() =~= self.nodes().take(i as int));
            }
            if let Some(n) = dag_node_weight(&self.dag, i as u32) {
                if n.is_widget() {
                    widgets = widgets + 1;
                }
            }
            i = i + 1;
        }
        assert(self.nodes().take(count as int) =~= self.nodes());
        widgets
    }

    /// Get the **NodeIndex** for the given **GraphIndex**.
    pub fn node_index<I: GraphIndex>(&self, idx: I) -> (r: Option<NodeIndex>)
        ensures
            r == idx.node_index_in(self.index_map()),
    {
        idx.to_node_index(&self.index_map)
    }

    /// Get the **WidgetId** for the given **GraphIndex**.
    pub fn widget_id<I: GraphIndex>(&self, idx: I) -> (r: Option<WidgetId>)
        ensures
            r == idx.widget_id_in(self.index_map()),
    {
        idx.to_widget_id(&self.index_map)
    }

    /// Get the **widget::Index** for the given **GraphIndex**: a widget id if there is one,
    /// otherwise the node index if there is one.
    pub fn widget_index<I: GraphIndex>(&self, idx: I) -> (r: Option<Index>)
        ensures
            r == (match idx.widget_id_in(self.index_map()) {
                Some(id) => Some(Index::Public(id)),
                None => match idx.node_index_in(self.index_map()) {
                    Some(n) => Some(Index::Internal(n)),
                    None => None,
                },
            }),
    {
        index_from_idx(idx, &self.index_map)
    }

    /// The node at the given **GraphIndex**, if there is one.
    pub fn node<I: GraphIndex>(&self, idx: I) -> (r: Option<Node>)
        ensures
            r == (match idx.node_index_in(self.index_map()) {
                Some(n) => if n.0 < self.nodes().len() {
                    Some(self.nodes()[n.0 as int])
                } else {
                    None
                },
                None => None,
            }),
    {
        match idx.to_node_index(&self.index_map) {
            Some(n) => dag_node_weight(&self.dag, n.0),
            None => None,
        }
    }

    /// The cached widget at the given index, if its node holds one.
    pub fn widget<I: GraphIndex>(&self, idx: I) -> (r: Option<Container>)
        ensures
            r == (match idx.node_index_in(self.index_map()) {
                Some(n) => if n.0 < self.nodes().len() {
                    match self.nodes()[n.0 as int] {
                        Node::Widget(c) => Some(c),
                        Node::Placeholder => None,
                    }
                } else {
                    None
                },
                None => None,
            }),
    {
        match self.node(idx) {
            Some(Node::Widget(c)) => Some(c),
            _ => None,
        }
    }

    /// The geometry cached for the widget at the given index, if there is one.
    pub fn widget_geometry<I: GraphIndex>(&self, idx: I) -> (r: Option<&G>)
        requires
            self.wf(),
        ensures
            r == (match idx.node_index_in(self.index_map()) {
                Some(n) => if n.0 < self.nodes().len() {
                    match self.geometry()[n.0 as int] {
                        Some(g) => Some(&g),
                        None => None,
                    }
                } else {
                    None
                },
                None => None,
            }),
    {
        match idx.to_node_index(&self.index_map) {
            Some(n) => {
                if (n.0 as usize) < self.geometry.len() {
                    match &self.geometry[n.0 as usize] {
                        Some(g) => Some(g),
                        None => None,
                    }
                } else {
                    None
                }
            },
            None => None,
        }
    }

    /// The edge at the given edge index, if there is one.
    pub fn edge(&self, idx: u32) -> (r: Option<Edge>)
        ensures
            r == (if idx < self.edges().len() {
                Some(self.edges()[idx as int].2)
            } else {
                None
            }),
    {
        dag_edge_weight(&self.dag, idx)
    }

    /// The parent and child nodes of the edge at the given edge index, if there is one.
    pub fn edge_endpoints(&self, idx: u32) -> (r: Option<(NodeIndex, NodeIndex)>)
        ensures
            r == (if idx < self.edges().len() {
                Some((NodeIndex(self.edges()[idx as int].0), NodeIndex(self.edges()[idx as int].1)))
            } else {
                None
            }),
    {
        match dag_edge_endpoints(&self.dag, idx) {
            Some((a, b)) => Some((NodeIndex(a), NodeIndex(b))),
            None => None,
        }
    }

    /// The edges that join the node `node` (into it where `incoming`, otherwise out of it), of
    /// the given kind where one is given, with the node at each edge's other end.
    fn walk(&self, node: u32, incoming: bool, kind: Option<Edge>) -> (r: Vec<(u32, NodeIndex)>)
        requires
            self.wf(),
        ensures
            r@ == edges_at(self.edges(), node, incoming, kind, self.edges().len() as int),
    {
        let count = dag_edge_count(&self.dag);
        let mut r: Vec<(u32, NodeIndex)> = Vec::new();
        let mut i: usize = 0;
        while i < count
            invariant
                self.wf(),
                count == self.edges().len(),
                i <= count,
                r@ == edges_at(self.edges(), node, incoming, kind, i as int),
            decreases count - i,
        {
            let e = i as u32;
            match (dag_edge_endpoints(&self.dag, e), dag_edge_weight(&self.dag, e)) {
                (Some((a, b)), Some(w)) => {
                    let joins = if incoming { b == node } else { a == node };
                    let of_kind = match kind {
                        Some(k) => w == k,
                        None => true,
                    };
                    if joins && of_kind {
                        r.push((e, NodeIndex(if incoming { a } else { b })));
                    }
                },
                _ => {},
            }
            i = i + 1;
        }
        r
    }

    /// The parents of the given node, each with the index of the edge from it, in the order of
    /// the edge indices.
    pub fn parents<I: GraphIndex>(&self, child: I) -> (r: Vec<(u32, NodeIndex)>)
        requires
            self.wf(),
        ensures
            r@ == walk_of(*self, child, true, None),
    {
        match child.to_node_index(&self.index_map) {
            Some(n) => self.walk(n.0, true, None),
            None => Vec::new(),
        }
    }

    /// The children of the given node, each with the index of the edge to it, in the order of
    /// the edge indices.
    pub fn children<I: GraphIndex>(&self, parent: I) -> (r: Vec<(u32, NodeIndex)>)
        requires
            self.wf(),
        ensures
            r@ == walk_of(*self, parent, false, None),
    {
        match parent.to_node_index(&self.index_map) {
            Some(n) => self.walk(n.0, false, None),
            None => Vec::new(),
        }
    }

    /// The children of the given node along edges of the given kind.
    pub fn edge_children<I: GraphIndex>(&self, parent: I, edge: Edge) -> (r: Vec<(u32, NodeIndex)>)
        requires
            self.wf(),
        ensures
            r@ == walk_of(*self, parent, false, Some(edge)),
    {
        match parent.to_node_index(&self.index_map) {
            Some(n) => self.walk(n.0, false, Some(edge)),
            None => Vec::new(),
        }
    }

    /// The children of the given node along **Depth** edges.
    pub fn depth_children<I: GraphIndex>(&self, idx: I) -> (r: Vec<(u32, NodeIndex)>)
        requires
            self.wf(),
        ensures
            r@ == walk_of(*self, idx, false, Some(Edge::Depth)),
    {
        self.edge_children(idx, Edge::Depth)
    }

    /// The children of the given node along x **Position** edges.
    pub fn x_position_children<I: GraphIndex>(&self, idx: I) -> (r: Vec<(u32, NodeIndex)>)
        requires
            self.wf(),
        ensures
            r@ == walk_of(*self, idx, false, Some(Edge::Position(Axis::X))),
    {
        self.edge_children(idx, Edge::Position(Axis::X))
    }

    /// The children of the given node along y **Position** edges.
    pub fn y_position_children<I: GraphIndex>(&self, idx: I) -> (r: Vec<(u32, NodeIndex)>)
        requires
            self.wf(),
        ensures
            r@ == walk_of(*self, idx, false, Some(Edge::Position(Axis::Y))),
    {
        self.edge_children(idx, Edge::Position(Axis::Y))
    }

    /// The children of the given node along x and then y **Position** edges.
    pub fn position_children<I: GraphIndex>(&self, idx: I) -> (r: Vec<(u32, NodeIndex)>)
        requires
            self.wf(),
        ensures
            r@ == walk_of(*self, idx, false, Some(Edge::Position(Axis::X))) + walk_of(
                *self,
                idx,
                false,
                Some(Edge::Position(Axis::Y)),
            ),
    {
        let mut xs = self.edge_children(idx, Edge::Position(Axis::X));
        let mut ys = self.edge_children(idx, Edge::Position(Axis::Y));
        xs.append(&mut ys);
        xs
    }

    /// The children of the given node along **Graphic** edges.
    pub fn graphic_children<I: GraphIndex>(&self, idx: I) -> (r: Vec<(u32, NodeIndex)>)
        requires
            self.wf(),
        ensures
            r@ == walk_of(*self, idx, false, Some(Edge::Graphic)),
    {
        self.edge_children(idx, Edge::Graphic)
    }

    /// The chain of parents of `start` along edges of kind `k`: its parent, that parent's
    /// parent, and so on up to a node without such a parent. The chain ends, for the graph holds
    /// no cycle.
    fn parent_chain(&self, start: u32, k: Edge) -> (r: Vec<u32>)
        requires
            self.wf(),
        ensures
            is_parent_chain(self.edge_set(), start, k, r@),
            parents_of(self.edge_set(), chain_end(start, r@), k) == Set::<u32>::empty(),
    {
        let n = dag_node_count(&self.dag);
        let ghost s = self.edge_set();
        let mut r: Vec<u32> = Vec::new();
        let mut cur = start;
        loop
            invariant
                self.wf(),
                s == self.edge_set(),
                n == self.nodes().len(),
                r@.no_duplicates(),
                forall|i: int| 0 <= i < r@.len() ==> #[trigger] r@[i] < n,
                forall|i: int| 0 <= i < r@.len() ==> #[trigger] r@[i] != start,
                r@.len() <= n,
                is_parent_chain(s, start, k, r@),
                cur == chain_end(start, r@),
            ensures
                is_parent_chain(s, start, k, r@),
                parents_of(s, chain_end(start, r@), k) == Set::<u32>::empty(),
            decreases n - r@.len(),
        {
            match self.find_parent_edge(cur, k) {
                Some(e) => {
                    let ends = dag_edge_endpoints(&self.dag, e);
                    let p = match ends {
                        Some((p, _)) => p,
                        None => {
                            return r;
                        },
                    };
                    proof {
                        let t = self.edges()[e as int];
                        assert(s.contains(t));
                        assert(t == (p, cur, k));
                        assert forall|i: int| 0 <= i <= r@.len() implies chain_prev(start, r@, i) != p by {
                            if chain_prev(start, r@, i) == p {
                                lemma_chain_reaches(s, start, k, r@, i, r@.len() as int);
                                assert(chain_prev(start, r@, r@.len() as int) == cur);
                            }
                        }
                        assert forall|i: int| 0 <= i < r@.len() implies r@[i] != p by {
                            assert(chain_prev(start, r@, i + 1) == r@[i]);
                        }
                        assert(chain_prev(start, r@, 0) == start);
                        let r2 = r@.push(p);
                        assert(r2.no_duplicates()) by {
                            assert forall|i: int, j: int| 0 <= i < r2.len() && 0 <= j < r2.len() && i != j implies r2[i] != r2[j] by {
                                if i < r@.len() && j < r@.len() {
                                    assert(r2[i] == r@[i] && r2[j] == r@[j]);
                                } else if i < r@.len() {
                                    assert(r2[i] == r@[i]);
                                } else if j < r@.len() {
                                    assert(r2[j] == r@[j]);
                                }
                            }
                        }
                        assert(forall|i: int| 0 <= i < r2.len() ==> #[trigger] r2[i] < n);
                        lemma_distinct_below(r2, n as nat);
                        assert forall|i: int| 0 <= i < r2.len() implies s.contains((#[trigger] r2[i], chain_prev(start, r2, i), k)) by {
                            if i < r@.len() {
                                assert(r2[i] == r@[i]);
                                assert(chain_prev(start, r2, i) == chain_prev(start, r@, i));
                            }
                        }
                    }
                    r.push(p);
                    cur = p;
                },
                None => {
                    proof {
                        assert forall|q: u32| !(#[trigger] s.contains((q, cur, k))) by {
                            if s.contains((q, cur, k)) {
                                let i = choose|i: int| 0 <= i < self.edges().len() && self.edges()[i] == (q, cur, k);
                                assert(self.edges()[i].1 == cur);
                            }
                        }
                        assert(parents_of(s, cur, k) =~= Set::<u32>::empty());
                    }
                    return r;
                },
            }
        }
    }

    /// The chain of parents of the given widget along edges of the given kind, nearest first
    /// (empty where the index has no node).
    pub fn edge_parent_recursion<I: GraphIndex>(&self, idx: I, edge: Edge) -> (r: Vec<NodeIndex>)
        requires
            self.wf(),
        ensures
            is_parent_walk(*self, idx, edge, r@),
    {
        match idx.to_node_index(&self.index_map) {
            Some(c) => {
                let chain = self.parent_chain(c.0, edge);
                let mut r: Vec<NodeIndex> = Vec::new();
                let mut i: usize = 0;
                while i < chain.len()
                    invariant
                        i <= chain@.len(),
                        r@.len() == i,
                        forall|j: int| 0 <= j < i ==> #[trigger] r@[j].0 == chain@[j],
                    decreases chain@.len() - i,
                {
                    r.push(NodeIndex(chain[i]));
                    i = i + 1;
                }
                assert(node_numbers(r@) =~= chain@);
                r
            },
            None => Vec::new(),
        }
    }

    /// The chain of parents of the given widget along **Depth** edges, nearest first.
    pub fn depth_parent_recursion<I: GraphIndex>(&self, idx: I) -> (r: Vec<NodeIndex>)
        requires
            self.wf(),
        ensures
            is_parent_walk(*self, idx, Edge::Depth, r@),
    {
        self.edge_parent_recursion(idx, Edge::Depth)
    }

    /// The chain of parents of the given widget along x **Position** edges, nearest first.
    pub fn x_position_parent_recursion<I: GraphIndex>(&self, idx: I) -> (r: Vec<NodeIndex>)
        requires
            self.wf(),
        ensures
            is_parent_walk(*self, idx, Edge::Position(Axis::X), r@),
    {
        self.edge_parent_recursion(idx, Edge::Position(Axis::X))
    }

    /// The chain of parents of the given widget along y **Position** edges, nearest first.
    pub fn y_position_parent_recursion<I: GraphIndex>(&self, idx: I) -> (r: Vec<NodeIndex>)
        requires
            self.wf(),
        ensures
            is_parent_walk(*self, idx, Edge::Position(Axis::Y), r@),
    {
        self.edge_parent_recursion(idx, Edge::Position(Axis::Y))
    }

    /// The chain of parents of the given widget along **Graphic** edges, nearest first.
    pub fn graphic_parent_recursion<I: GraphIndex>(&self, idx: I) -> (r: Vec<NodeIndex>)
        requires
            self.wf(),
        ensures
            is_parent_walk(*self, idx, Edge::Graphic, r@),
    {
        self.edge_parent_recursion(idx, Edge::Graphic)
    }

    /// Along edges of any kind, each node has at most one parent of that kind.
    proof fn lemma_one_parent(&self, k: Edge)
        requires
            self.wf(),
        ensures
            one_parent_per_kind(self.edge_set(), k),
    {
        let s = self.edge_set();
        assert forall|p1: u32, p2: u32, c: u32| #[trigger] s.contains((p1, c, k)) && #[trigger] s.contains((p2, c, k)) implies p1 == p2 by {
            let i = choose|i: int| 0 <= i < self.edges().len() && self.edges()[i] == (p1, c, k);
            let j = choose|j: int| 0 <= j < self.edges().len() && self.edges()[j] == (p2, c, k);
            assert(self.edges()[i].1 == self.edges()[j].1);
        }
    }

    /// Are the given `parent` and `child` nodes connected by a single chain of edges of the given
    /// kind, `parent` -> x -> y -> `child`? Answers `false` where either index has no node.
    pub fn does_recursive_edge_exist<P: GraphIndex, C: GraphIndex>(
        &self,
        parent: P,
        child: C,
        edge: Edge,
    ) -> (r: bool)
        requires
            self.wf(),
        ensures
            r == (match (
                parent.node_index_in(self.index_map()),
                child.node_index_in(self.index_map()),
            ) {
                (Some(p), Some(c)) => exists|ch: Seq<u32>|
                    is_parent_chain(self.edge_set(), c.0, edge, ch) && ch.len() > 0 && ch.last()
                        == p.0,
                _ => false,
            }),
    {
        match (parent.to_node_index(&self.index_map), child.to_node_index(&self.index_map)) {
            (Some(p), Some(c)) => {
                let chain = self.parent_chain(c.0, edge);
                let ghost s = self.edge_set();
                let mut i: usize = 0;
                while i < chain.len()
                    invariant
                        i <= chain@.len(),
                        forall|j: int| 0 <= j < i ==> chain@[j] != p.0,
                        s == self.edge_set(),
                        is_parent_chain(s, c.0, edge, chain@),
                        parent.node_index_in(self.index_map()) == Some(p),
                        child.node_index_in(self.index_map()) == Some(c),
                    decreases chain@.len() - i,
                {
                    if chain[i] == p.0 {
                        proof {
                            lemma_chain_prefix(s, c.0, edge, chain@, i as int);
                        }
                        return true;
                    }
                    i = i + 1;
                }
                proof {
                    self.lemma_one_parent(edge);
                    assert forall|ch: Seq<u32>| !(is_parent_chain(s, c.0, edge, ch) && ch.len() > 0 && ch.last() == p.0) by {
                        if is_parent_chain(s, c.0, edge, ch) && ch.len() > 0 && ch.last() == p.0 {
                            lemma_chain_agrees(s, c.0, edge, ch, chain@, ch.len() as int);
                            assert(chain@[ch.len() - 1] == p.0);
                        }
                    }
                }
                false
            },
            _ => false,
        }
    }

    /// Are `parent` and `child` connected by a single chain of **Depth** edges?
    pub fn does_recursive_depth_edge_exist<P: GraphIndex, C: GraphIndex>(&self, parent: P, child: C) -> (r: bool)
        requires
            self.wf(),
        ensures
            r == (match (
                parent.node_index_in(self.index_map()),
                child.node_index_in(self.index_map()),
            ) {
                (Some(p), Some(c)) => exists|ch: Seq<u32>|
                    is_parent_chain(self.edge_set(), c.0, Edge::Depth, ch) && ch.len() > 0
                        && ch.last() == p.0,
                _ => false,
            }),
    {
        self.does_recursive_edge_exist(parent, child, Edge::Depth)
    }

    /// Are `parent` and `child` connected by a single chain of **Graphic** edges?
    pub fn does_recursive_graphic_edge_exist<P: GraphIndex, C: GraphIndex>(&self, parent: P, child: C) -> (r: bool)
        requires
            self.wf(),
        ensures
            r == (match (
                parent.node_index_in(self.index_map()),
                child.node_index_in(self.index_map()),
            ) {
                (Some(p), Some(c)) => exists|ch: Seq<u32>|
                    is_parent_chain(self.edge_set(), c.0, Edge::Graphic, ch) && ch.len() > 0
                        && ch.last() == p.0,
                _ => false,
            }),
    {
        self.does_recursive_edge_exist(parent, child, Edge::Graphic)
    }

    /// If the widget at the given index has some parent along an **Edge** of the given variant,
    /// return the index of its node.
    pub fn edge_parent<I: GraphIndex>(&self, idx: I, edge: Edge) -> (r: Option<NodeIndex>)
        requires
            self.wf(),
        ensures
            match idx.node_index_in(self.index_map()) {
                Some(c) => parents_of(self.edge_set(), c.0, edge) == just(
                    match r {
                        Some(p) => Some(p.0),
                        None => None,
                    },
                ),
                None => r is None,
            },
    {
        match idx.to_node_index(&self.index_map) {
            Some(c) => {
                let found = self.find_parent_edge(c.0, edge);
                match found {
                    Some(k) => {
                        let ends = dag_edge_endpoints(&self.dag, k);
                        match ends {
                            Some((p, _)) => {
                                proof {
                                    let s = self.edge_set();
                                    assert(s.contains(self.edges()[k as int]));
                                    assert forall|q: u32| #[trigger] s.contains((q, c.0, edge))
                                        implies q == p by {
                                        let i = choose|i: int|
                                            0 <= i < self.edges().len() && self.edges()[i] == (
                                                q,
                                                c.0,
                                                edge,
                                            );
                                        assert(self.edges()[i].1 == self.edges()[k as int].1);
                                    }
                                    assert(parents_of(s, c.0, edge) =~= set![p]);
                                }
                                Some(NodeIndex(p))
                            },
                            None => None,
                        }
                    },
                    None => {
                        proof {
                            let s = self.edge_set();
                            assert forall|q: u32| !(#[trigger] s.contains((q, c.0, edge))) by {
                                if s.contains((q, c.0, edge)) {
                                    let i = choose|i: int|
                                        0 <= i < self.edges().len() && self.edges()[i] == (
                                            q,
                                            c.0,
                                            edge,
                                        );
                                    assert(self.edges()[i].1 == c.0);
                                }
                            }
                            assert(parents_of(s, c.0, edge) =~= Set::<u32>::empty());
                        }
                        None
                    },
                }
            },
            None => None,
        }
    }

    /// The node of the parent along the given widget's **Depth** edge.
    pub fn depth_parent<I: GraphIndex>(&self, idx: I) -> (r: Option<NodeIndex>)
        requires
            self.wf(),
        ensures
            match idx.node_index_in(self.index_map()) {
                Some(c) => parents_of(self.edge_set(), c.0, Edge::Depth) == just(
                    match r {
                        Some(p) => Some(p.0),
                        None => None,
                    },
                ),
                None => r is None,
            },
    {
        self.edge_parent(idx, Edge::Depth)
    }

    /// The node of the parent along the given widget's x **Position** edge.
    pub fn x_position_parent<I: GraphIndex>(&self, idx: I) -> (r: Option<NodeIndex>)
        requires
            self.wf(),
        ensures
            match idx.node_index_in(self.index_map()) {
                Some(c) => parents_of(self.edge_set(), c.0, Edge::Position(Axis::X)) == just(
                    match r {
                        Some(p) => Some(p.0),
                        None => None,
                    },
                ),
                None => r is None,
            },
    {
        self.edge_parent(idx, Edge::Position(Axis::X))
    }

    /// The node of the parent along the given widget's y **Position** edge.
    pub fn y_position_parent<I: GraphIndex>(&self, idx: I) -> (r: Option<NodeIndex>)
        requires
            self.wf(),
        ensures
            match idx.node_index_in(self.index_map()) {
                Some(c) => parents_of(self.edge_set(), c.0, Edge::Position(Axis::Y)) == just(
                    match r {
                        Some(p) => Some(p.0),
                        None => None,
                    },
                ),
                None => r is None,
            },
    {
        self.edge_parent(idx, Edge::Position(Axis::Y))
    }

    /// The node of the parent along the given widget's **Graphic** edge.
    pub fn graphic_parent<I: GraphIndex>(&self, idx: I) -> (r: Option<NodeIndex>)
        requires
            self.wf(),
        ensures
            match idx.node_index_in(self.index_map()) {
                Some(c) => parents_of(self.edge_set(), c.0, Edge::Graphic) == just(
                    match r {
                        Some(p) => Some(p.0),
                        None => None,
                    },
                ),
                None => r is None,
            },
    {
        self.edge_parent(idx, Edge::Graphic)
    }

    /// Does an edge of the given kind exist between the nodes `parent` -> `child`. Answers
    /// `false` where either index has no node.
    pub fn does_edge_exist<P: GraphIndex, C: GraphIndex>(
        &self,
        parent: P,
        child: C,
        edge: Edge,
    ) -> (r: bool)
        requires
            self.wf(),
        ensures
            r == (match (
                parent.node_index_in(self.index_map()),
                child.node_index_in(self.index_map()),
            ) {
                (Some(p), Some(c)) => self.edge_set().contains((p.0, c.0, edge)),
                _ => false,
            }),
    {
        match parent.to_node_index(&self.index_map) {
            Some(p) => {
                let found = self.edge_parent(child, edge);
                proof {
                    if let Some(c) = child.node_index_in(self.index_map()) {
                        assert(parents_of(self.edge_set(), c.0, edge).contains(p.0)
                            == self.edge_set().contains((p.0, c.0, edge)));
                    }
                }
                match found {
                    Some(q) => q.0 == p.0,
                    None => false,
                }
            },
            None => false,
        }
    }

    /// Does a **Depth** edge exist between the nodes `parent` -> `child`.
    pub fn does_depth_edge_exist<P: GraphIndex, C: GraphIndex>(
        &self,
        parent: P,
        child: C,
    ) -> (r: bool)
        requires
            self.wf(),
        ensures
            r == (match (
                parent.node_index_in(self.index_map()),
                child.node_index_in(self.index_map()),
            ) {
                (Some(p), Some(c)) => self.edge_set().contains((p.0, c.0, Edge::Depth)),
                _ => false,
            }),
    {
        self.does_edge_exist(parent, child, Edge::Depth)
    }

    /// Does a **Position** edge, along either axis, exist between the nodes `parent` -> `child`.
    pub fn does_position_edge_exist<P: GraphIndex, C: GraphIndex>(
        &self,
        parent: P,
        child: C,
    ) -> (r: bool)
        requires
            self.wf(),
        ensures
            r == (match (
                parent.node_index_in(self.index_map()),
                child.node_index_in(self.index_map()),
            ) {
                (Some(p), Some(c)) => self.edge_set().contains((p.0, c.0, Edge::Position(Axis::X)))
                    || self.edge_set().contains((p.0, c.0, Edge::Position(Axis::Y))),
                _ => false,
            }),
    {
        self.does_edge_exist(parent, child, Edge::Position(Axis::X))
            || self.does_edge_exist(parent, child, Edge::Position(Axis::Y))
    }

    /// Does a **Graphic** edge exist between the nodes `parent` -> `child`.
    pub fn does_graphic_edge_exist<P: GraphIndex, C: GraphIndex>(
        &self,
        parent: P,
        child: C,
    ) -> (r: bool)
        requires
            self.wf(),
        ensures
            r == (match (
                parent.node_index_in(self.index_map()),
                child.node_index_in(self.index_map()),
            ) {
                (Some(p), Some(c)) => self.edge_set().contains((p.0, c.0, Edge::Graphic)),
                _ => false,
            }),
    {
        self.does_edge_exist(parent, child, Edge::Graphic)
    }

}

/// The parents of `c` along kind `k` as an optional node gives them: none, or that one node.
pub open spec fn just(p: Option<u32>) -> Set<u32> {
    match p {
        Some(pp) => set![pp],
        None => Set::empty(),
    }
}

/// Once a widget is cached, its x and y position parents and its graphic parent are exactly the
/// nodes that the cache names (so each widget has at most one parent of each kind), and its
/// depth parent is the one the cache names, or the root.
pub proof fn law_cached_widget_has_its_parents<G>(
    g0: Graph<G>,
    g1: Graph<G>,
    root: NodeIndex,
    w: PreUpdateCache<G>,
    instantiation_order_idx: usize,
)
    requires
        cached(g0, g1, root, w, instantiation_order_idx),
    ensures
        ({
            let m1 = g1.index_map();
            let n = node_of(m1, w.idx)->0;
            &&& parents_of(g1.edge_set(), n, Edge::Position(Axis::X)) == just(
                maybe_node_of(m1, w.maybe_x_positioned_relatively_idx),
            )
            &&& parents_of(g1.edge_set(), n, Edge::Position(Axis::Y)) == just(
                maybe_node_of(m1, w.maybe_y_positioned_relatively_idx),
            )
            &&& parents_of(g1.edge_set(), n, Edge::Graphic) == just(
                maybe_node_of(m1, w.maybe_graphics_for),
            )
            &&& (depth_parent_of(m1, w.maybe_parent_idx, n, root) matches Some(p) ==> parents_of(
                g1.edge_set(),
                n,
                Edge::Depth,
            ) == set![p])
        }),
{
    let m1 = g1.index_map();
    let n = node_of(m1, w.idx)->0;
    let s = g1.edge_set();
    assert(parents_of(s, n, Edge::Position(Axis::X)) =~= just(
        maybe_node_of(m1, w.maybe_x_positioned_relatively_idx),
    ));
    assert(parents_of(s, n, Edge::Position(Axis::Y)) =~= just(
        maybe_node_of(m1, w.maybe_y_positioned_relatively_idx),
    ));
    assert(parents_of(s, n, Edge::Graphic) =~= just(maybe_node_of(m1, w.maybe_graphics_for)));
    if let Some(p) = depth_parent_of(m1, w.maybe_parent_idx, n, root) {
        assert(parents_of(s, n, Edge::Depth) =~= set![p]);
    }

}

/// The widget graph never holds a cycle: from no edge's child can its parent be reached.
pub proof fn law_graph_has_no_cycle<G>(g: Graph<G>, p: u32, c: u32, k: Edge)
    requires
        g.wf(),
        g.edge_set().contains((p, c, k)),
    ensures
        !reaches(g.edge_set(), c, p),
        p != c,
{
    assert(super::paths::is_path(g.edge_set(), Seq::<EdgeTriple>::empty(), c, c));
}

/// Caching the edges of a widget twice over the same map is caching them once.
proof fn lemma_cached_edges_idempotent<G>(
    s: Set<EdgeTriple>,
    map: IndexMap,
    n: u32,
    root: NodeIndex,
    w: PreUpdateCache<G>,
)
    ensures
        cached_edges(cached_edges(s, map, n, root, w), map, n, root, w) == cached_edges(s, map, n, root, w),
{
    let once = cached_edges(s, map, n, root, w);
    let twice = cached_edges(once, map, n, root, w);
    assert forall|t: EdgeTriple| twice.contains(t) <==> once.contains(t) by {
        if t.1 == n && t.2 == Edge::Depth {
        }
    }
    assert(twice =~= once);
}

/// Caching a widget again with the same cache, once every index that it names has a node,
/// leaves the graph's edges as they were.
pub proof fn law_caching_again_keeps_edges<G>(
    g0: Graph<G>,
    g1: Graph<G>,
    g2: Graph<G>,
    root: NodeIndex,
    w: PreUpdateCache<G>,
    first_order_idx: usize,
    second_order_idx: usize,
)
    requires
        cached(g0, g1, root, w, first_order_idx),
        cached(g1, g2, root, w, second_order_idx),
        w.maybe_parent_idx matches Some(i) ==> node_of(g1.index_map(), i) is Some,
        w.maybe_x_positioned_relatively_idx matches Some(i) ==> node_of(g1.index_map(), i) is Some,
        w.maybe_y_positioned_relatively_idx matches Some(i) ==> node_of(g1.index_map(), i) is Some,
        w.maybe_graphics_for matches Some(i) ==> node_of(g1.index_map(), i) is Some,
    ensures
        g2.edge_set() == g1.edge_set(),
{
    let m1 = g1.index_map();
    let m2 = g2.index_map();
    let n = node_of(m1, w.idx)->0;
    assert(forall|i: Index| node_of(m1, i) is Some ==> #[trigger] node_of(m2, i) == node_of(m1, i)) by {
        assert forall|i: Index| node_of(m1, i) is Some implies #[trigger] node_of(m2, i) == node_of(m1, i) by {
            if let Index::Public(id) = i {
                assert(m1.nodes().contains_key(id));
            }
        }
    }
    assert(node_of(m2, w.idx) == Some(n));
    assert(cached_edges(g1.edge_set(), m2, n, root, w) == cached_edges(g1.edge_set(), m1, n, root, w));
    lemma_cached_edges_idempotent(g0.edge_set(), m1, n, root, w);
}

} // verus!
