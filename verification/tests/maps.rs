use conrod::graph::index_map::{index_from_idx, GraphIndex, IndexMap};
use conrod::graph::{is_depth_edge, is_graphic_edge, is_x_position_edge, is_y_position_edge, Edge, NUM_EDGE_VARIANTS};
use conrod::image::ImageMap;
use conrod::position::axis::Axis;
use conrod::texture::TextureMap;
use conrod::widget::{Index, NodeIndex};

#[test]
fn image_map_insert_get_replace_remove() {
    let mut map: ImageMap<&str> = ImageMap::new();
    let a = map.insert("a");
    let b = map.insert("b");
    assert_ne!(a, b);
    assert_eq!(map.get(a), Some(&"a"));
    assert_eq!(map.replace(a, "c"), Some("a"));
    assert_eq!(map.get(a), Some(&"c"));
    assert_eq!(map.remove(b), Some("b"));
    assert_eq!(map.get(b), None);
    assert_eq!(map.remove(b), None);
    if let Some(img) = map.get_mut(a) {
        *img = "d";
    }
    assert_eq!(map.get(a), Some(&"d"));
}

#[test]
fn image_map_extend_gives_consecutive_ids() {
    let mut map: ImageMap<u8> = ImageMap::new();
    let first = map.insert(7);
    let mut ids = map.extend(vec![1, 2, 3]);
    assert_eq!(ids.len(), 3);
    let mut got = Vec::new();
    while let Some(id) = ids.next() {
        got.push(id);
    }
    assert_eq!(got.len(), 3);
    assert_ne!(got[0], first);
    assert_ne!(got[0], got[1]);
    assert_eq!(map.get(got[0]), Some(&1));
    assert_eq!(map.get(got[2]), Some(&3));
    assert_eq!(map.get(first), Some(&7));
}

#[test]
fn texture_map_insert_then_get() {
    let mut map: TextureMap<String> = TextureMap::new();
    let a = map.insert("tex".to_string());
    let b = map.insert("other".to_string());
    assert_ne!(a, b);
    assert_eq!(map.get(a), Some(&"tex".to_string()));
    assert_eq!(map.get(b), Some(&"other".to_string()));
}

#[test]
fn index_map_maps_both_ways() {
    let mut map = IndexMap::with_capacity(4);
    assert_eq!(map.get_node_index(3), None);
    map.insert(3, NodeIndex(10));
    assert_eq!(map.get_node_index(3), Some(NodeIndex(10)));
    assert_eq!(map.get_widget_id(NodeIndex(10)), Some(3));
    assert_eq!(map.get_widget_id(NodeIndex(11)), None);
}

#[test]
fn graph_indices_convert_through_the_map() {
    let mut map = IndexMap::with_capacity(4);
    map.insert(3, NodeIndex(10));
    assert_eq!(3usize.to_node_index(&map), Some(NodeIndex(10)));
    assert_eq!(4usize.to_node_index(&map), None);
    assert_eq!(NodeIndex(10).to_widget_id(&map), Some(3));
    assert_eq!(NodeIndex(12).to_node_index(&map), Some(NodeIndex(12)));
    assert_eq!(Index::Public(3).to_node_index(&map), Some(NodeIndex(10)));
    assert_eq!(Index::Internal(NodeIndex(12)).to_widget_id(&map), None);
    assert_eq!(index_from_idx(NodeIndex(10), &map), Some(Index::Public(3)));
    assert_eq!(index_from_idx(NodeIndex(12), &map), Some(Index::Internal(NodeIndex(12))));
    assert_eq!(index_from_idx(5usize, &map), Some(Index::Public(5)));
}

#[test]
fn edge_kinds() {
    assert_eq!(NUM_EDGE_VARIANTS, 4);
    assert!(is_depth_edge(&Edge::Depth));
    assert!(!is_depth_edge(&Edge::Graphic));
    assert!(is_graphic_edge(&Edge::Graphic));
    assert!(is_x_position_edge(&Edge::Position(Axis::X)));
    assert!(!is_x_position_edge(&Edge::Position(Axis::Y)));
    assert!(is_y_position_edge(&Edge::Position(Axis::Y)));
}

#[test]
fn insert_after_extend_gives_a_new_id() {
    let mut m: ImageMap<u8> = ImageMap::new();
    let mut new_ids = m.extend(vec![1u8, 2u8]);
    let mut ids = Vec::new();
    while let Some(id) = new_ids.next() {
        ids.push(id);
    }
    let id = m.insert(3u8);
    assert!(!ids.contains(&id));
    assert_eq!(m.get(ids[0]), Some(&1));
    assert_eq!(m.get(ids[1]), Some(&2));
    assert_eq!(m.get(id), Some(&3));
    assert!(m.trigger_redraw);
}
