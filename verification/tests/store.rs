use net_modeler::error::NetworkError;
use net_modeler::link::Link;
use net_modeler::load::Area;
use net_modeler::network::Network;
use net_modeler::node::Node;

fn node(id: &str, x: f64, y: f64) -> Node<f64> {
    Node { id: id.to_string(), point: (x, y) }
}

fn link(id: &str, source: &str, destination: &str, capacity: u8, weight: u8) -> Link {
    Link {
        link_id: id.to_string(),
        source_node: source.to_string(),
        destination_node: destination.to_string(),
        capacity,
        weight,
    }
}

fn three_links() -> Vec<Link> {
    vec![
        link("link_A", "Node1", "Node2", 100, 10),
        link("link_B", "Node2", "Node3", 50, 5),
        link("link_C", "Node1", "Node3", 75, 8),
    ]
}

#[test]
fn network_load_successful() {
    let csv_content = "link_id,source_node,destination_node,capacity,weight\n\
                       link_A,Node1,Node2,100,10\n\
                       link_B,Node2,Node3,50,5\n\
                       link_C,Node1,Node3,75,8\n";

    let mut rdr = csv::Reader::from_reader(csv_content.as_bytes());
    let mut network_links: Vec<Link> = Vec::new();

    for network in rdr.records() {
        let record = network.unwrap();
        let loaded_link = Link {
            link_id: record[0].to_string(),
            source_node: record[1].to_string(),
            destination_node: record[2].to_string(),
            capacity: record[3].parse().unwrap(),
            weight: record[4].parse().unwrap(),
        };
        network_links.push(loaded_link);
    }

    let mut network: Network<f64> = Network::new();

    for link in &network_links {
        network.add_node(Node { id: link.source_node.clone(), point: (0.0, 0.0) });
        network.add_node(Node { id: link.destination_node.clone(), point: (0.0, 0.0) });
    }

    for link in network_links {
        network.add_link(link).expect("Failed to add link");
    }

    assert_eq!(network.node_count(), 3);
    assert_eq!(network.edge_count(), 3);

    let node1_idx = network.index_of("Node1").expect("Node1 not found");
    let node2_idx = network.index_of("Node2").expect("Node2 not found");
    let node3_idx = network.index_of("Node3").expect("Node3 not found");

    assert_eq!(network.node(node1_idx).unwrap().id, "Node1");
    assert_eq!(network.node(node2_idx).unwrap().id, "Node2");
    assert_eq!(network.node(node3_idx).unwrap().id, "Node3");

    let edge_ref = network.find_link(node1_idx, node2_idx);
    assert!(edge_ref.is_some());
    let edge_weight = network.link(edge_ref.unwrap()).unwrap();
    assert_eq!(edge_weight.capacity, 100);
    assert_eq!(edge_weight.weight, 10);
}

#[test]
fn test_node_addition_deduplication() {
    let mut network: Network<f64> = Network::new();
    let node1 = Node { id: "A".to_string(), point: (0.0, 0.0) };
    let node2 = Node { id: "B".to_string(), point: (0.0, 0.0) };

    let idx_a1 = network.add_node(node1.clone());
    let idx_b = network.add_node(node2.clone());
    let idx_a2 = network.add_node(node1.clone());

    assert_eq!(network.node_count(), 2);
    assert_eq!(network.sorted_ids().len(), 2);
    assert_eq!(idx_a1, idx_a2);
    assert_ne!(idx_a1, idx_b);
}

#[test]
fn test_link_addition_error_handling() {
    let mut network: Network<f64> = Network::new();
    let node_a = Node { id: "A".to_string(), point: (0.0, 0.0) };
    network.add_node(node_a);

    let invalid_link = Link {
        link_id: "link_invalid".to_string(),
        source_node: "A".to_string(),
        destination_node: "NonExistent".to_string(),
        capacity: 10,
        weight: 1,
    };
    let result = network.add_link(invalid_link);
    assert!(result.is_err());
    match result.unwrap_err() {
        NetworkError::NodeNotFound(id) => assert_eq!(id, "NonExistent"),
    }
}

#[test]
fn new_network_is_empty() {
    let network: Network<f64> = Network::new();
    assert_eq!(network.node_count(), 0);
    assert_eq!(network.edge_count(), 0);
    assert!(network.nodes().is_empty());
    assert!(network.links().is_empty());
    assert!(network.node(0).is_none());
    assert!(network.link(0).is_none());
    assert_eq!(network.index_of("A"), None);
    assert_eq!(network.find_link(0, 0), None);
}

#[test]
fn indices_are_sequential() {
    let mut network: Network<f64> = Network::new();
    assert_eq!(network.add_node(node("A", 1.0, 2.0)), 0);
    assert_eq!(network.add_node(node("B", 3.0, 4.0)), 1);
    assert_eq!(network.add_node(node("C", 5.0, 6.0)), 2);
    assert_eq!(network.node_count(), 3);
    assert_eq!(network.index_of("A"), Some(0));
    assert_eq!(network.index_of("B"), Some(1));
    assert_eq!(network.index_of("C"), Some(2));
    assert_eq!(network.index_of("D"), None);
}

#[test]
fn second_insertion_keeps_the_first_position() {
    let mut network: Network<f64> = Network::new();
    network.add_node(node("other", 9.0, 9.0));
    let first = network.add_node(node("s", 10.0, 20.0));
    let second = network.add_node(node("s", 300.5, -40.25));
    assert_eq!(first, 1);
    assert_eq!(second, first);
    assert_eq!(network.node_count(), 2);
    assert_eq!(network.position(first), (10.0, 20.0));
    assert_eq!(network.node(first).unwrap(), node("s", 10.0, 20.0));
}

#[test]
fn the_empty_id_is_an_id() {
    let mut network: Network<f64> = Network::new();
    assert_eq!(network.add_node(node("", 1.0, 1.0)), 0);
    assert_eq!(network.add_node(node("", 2.0, 2.0)), 0);
    assert_eq!(network.index_of(""), Some(0));
    assert_eq!(network.position(0), (1.0, 1.0));
}

#[test]
fn nodes_come_in_insertion_order() {
    let mut network: Network<f64> = Network::new();
    network.add_node(node("zeta", 1.0, 2.0));
    network.add_node(node("alpha", 3.0, 4.0));
    network.add_node(node("zeta", 5.0, 6.0));
    network.add_node(node("mid", 7.0, 8.0));
    let nodes = network.nodes();
    assert_eq!(nodes, vec![node("zeta", 1.0, 2.0), node("alpha", 3.0, 4.0), node("mid", 7.0, 8.0)]);
}

#[test]
fn node_by_index() {
    let mut network: Network<f64> = Network::new();
    network.add_node(node("A", 1.5, 2.5));
    network.add_node(node("B", 3.5, 4.5));
    assert_eq!(network.node(0), Some(node("A", 1.5, 2.5)));
    assert_eq!(network.node(1), Some(node("B", 3.5, 4.5)));
    assert_eq!(network.node(2), None);
    assert_eq!(network.node(usize::MAX), None);
}

#[test]
fn positions_are_read_and_written_by_index() {
    let mut network: Network<f64> = Network::new();
    network.add_node(node("A", 1.0, 2.0));
    network.add_node(node("B", 3.0, 4.0));
    network.add_link(link("l", "A", "B", 1, 2)).unwrap();
    network.set_position(1, (30.0, 40.0));
    assert_eq!(network.position(0), (1.0, 2.0));
    assert_eq!(network.position(1), (30.0, 40.0));
    assert_eq!(network.node(1), Some(node("B", 30.0, 40.0)));
    assert_eq!(network.index_of("B"), Some(1));
    assert_eq!(network.node_count(), 2);
    assert_eq!(network.edge_count(), 1);
    assert_eq!(network.endpoints(0), (0, 1));
}

#[test]
fn missing_source_is_named_first() {
    let mut network: Network<f64> = Network::new();
    network.add_node(node("B", 0.0, 0.0));
    let refused = network.add_link(link("l", "A", "B", 1, 1));
    match refused.unwrap_err() {
        NetworkError::NodeNotFound(id) => assert_eq!(id, "A"),
    }
    let refused = network.add_link(link("l", "X", "Y", 1, 1));
    match refused.unwrap_err() {
        NetworkError::NodeNotFound(id) => assert_eq!(id, "X"),
    }
    assert_eq!(network.edge_count(), 0);
    assert_eq!(network.node_count(), 1);
}

#[test]
fn refused_link_leaves_the_store_as_it_is() {
    let mut network: Network<f64> = Network::new();
    network.add_node(node("A", 1.0, 2.0));
    network.add_node(node("B", 3.0, 4.0));
    network.add_link(link("ok", "A", "B", 7, 9)).unwrap();
    let before_nodes = network.nodes();
    let refused = network.add_link(link("bad", "A", "Nowhere", 1, 1));
    assert!(refused.is_err());
    assert_eq!(network.edge_count(), 1);
    assert_eq!(network.nodes(), before_nodes);
    assert_eq!(network.link(0).unwrap().link_id, "ok");
    assert!(network.link(1).is_none());
    assert_eq!(network.index_of("Nowhere"), None);
}

#[test]
fn error_message() {
    let error = NetworkError::NodeNotFound("NonExistent".to_string());
    assert_eq!(error.message(), "Node not found: NonExistent");
    let error = NetworkError::NodeNotFound(String::new());
    assert_eq!(error.message(), "Node not found: ");
}

#[test]
fn self_loops_and_parallel_links_are_kept() {
    let mut network: Network<f64> = Network::new();
    network.add_node(node("A", 0.0, 0.0));
    network.add_node(node("B", 1.0, 1.0));
    network.add_link(link("loop", "A", "A", 1, 1)).unwrap();
    network.add_link(link("first", "A", "B", 2, 2)).unwrap();
    network.add_link(link("second", "A", "B", 3, 3)).unwrap();
    network.add_link(link("back", "B", "A", 4, 4)).unwrap();
    assert_eq!(network.edge_count(), 4);
    assert_eq!(network.endpoints(0), (0, 0));
    assert_eq!(network.endpoints(1), (0, 1));
    assert_eq!(network.endpoints(2), (0, 1));
    assert_eq!(network.endpoints(3), (1, 0));
    assert_eq!(network.find_link(0, 0), Some(0));
    let found = network.find_link(0, 1).unwrap();
    assert!(found == 1 || found == 2 || found == 3);
    let found = network.find_link(1, 0).unwrap();
    assert!(found == 1 || found == 2 || found == 3);
    assert_eq!(network.find_link(1, 1), None);
}

#[test]
fn links_come_in_creation_order_with_their_nodes() {
    let mut network: Network<f64> = Network::new();
    network.add_node(node("Node1", 1.0, 10.0));
    network.add_node(node("Node2", 2.0, 20.0));
    network.add_node(node("Node3", 3.0, 30.0));
    for record in three_links() {
        network.add_link(record).unwrap();
    }
    let links = network.links();
    assert_eq!(links.len(), 3);
    let ids: Vec<&str> = links.iter().map(|entry| entry.0.link_id.as_str()).collect();
    assert_eq!(ids, vec!["link_A", "link_B", "link_C"]);
    assert_eq!(links[0].1, node("Node1", 1.0, 10.0));
    assert_eq!(links[0].2, node("Node2", 2.0, 20.0));
    assert_eq!(links[1].1, node("Node2", 2.0, 20.0));
    assert_eq!(links[1].2, node("Node3", 3.0, 30.0));
    assert_eq!(links[2].1, node("Node1", 1.0, 10.0));
    assert_eq!(links[2].2, node("Node3", 3.0, 30.0));
    assert_eq!(links[1].0.capacity, 50);
    assert_eq!(links[1].0.weight, 5);
    assert_eq!(links[2].0.source_node, "Node1");
    assert_eq!(links[2].0.destination_node, "Node3");
}

#[test]
fn link_by_index_and_lookup() {
    let mut network: Network<f64> = Network::new();
    network.add_node(node("Node1", 0.0, 0.0));
    network.add_node(node("Node2", 0.0, 0.0));
    network.add_node(node("Node3", 0.0, 0.0));
    network.add_node(node("Node4", 0.0, 0.0));
    for record in three_links() {
        network.add_link(record).unwrap();
    }
    assert_eq!(network.link(0).unwrap().weight, 10);
    assert_eq!(network.link(1).unwrap().weight, 5);
    assert_eq!(network.link(2).unwrap().capacity, 75);
    assert!(network.link(3).is_none());
    assert_eq!(network.find_link(0, 1), Some(0));
    assert_eq!(network.find_link(1, 0), Some(0));
    assert_eq!(network.find_link(2, 1), Some(1));
    assert_eq!(network.find_link(0, 2), Some(2));
    assert_eq!(network.find_link(0, 3), None);
    assert_eq!(network.find_link(3, 3), None);
    assert_eq!(network.find_link(0, 4), None);
    assert_eq!(network.find_link(usize::MAX, 0), None);
}

#[test]
fn concrete_scenario_from_records() {
    let records = three_links();
    let places = vec![
        ((1.0, 1.0), (2.0, 2.0)),
        ((3.0, 3.0), (4.0, 4.0)),
        ((5.0, 5.0), (6.0, 6.0)),
    ];
    let network: Network<f64> = Network::from_links(&records, &places);
    assert_eq!(network.node_count(), 3);
    assert_eq!(network.edge_count(), 3);
    assert_eq!(
        network.nodes(),
        vec![node("Node1", 1.0, 1.0), node("Node2", 2.0, 2.0), node("Node3", 4.0, 4.0)]
    );
    let first = network.index_of("Node1").unwrap();
    let second = network.index_of("Node2").unwrap();
    let between = network.find_link(first, second).unwrap();
    assert_eq!(network.link(between).unwrap().weight, 10);
    assert_eq!(network.link(between).unwrap().capacity, 100);
    assert_eq!(network.endpoints(1), (1, 2));
    assert_eq!(network.endpoints(2), (0, 2));
}

#[test]
fn no_records_no_network() {
    let network: Network<f64> = Network::from_links(&Vec::new(), &Vec::new());
    assert_eq!(network.node_count(), 0);
    assert_eq!(network.edge_count(), 0);
}

#[test]
fn random_cells_lie_in_the_area() {
    let area = Area { left: 50, right: 500, top: 50, bottom: 550 };
    let mut seen_other_than_corner = false;
    for _ in 0..300 {
        let (x, y) = area.random_cell();
        assert!(50 <= x && x < 500);
        assert!(50 <= y && y < 550);
        if x != 50 || y != 50 {
            seen_other_than_corner = true;
        }
    }
    assert!(seen_other_than_corner);
    let cell = Area { left: 7, right: 8, top: 3, bottom: 4 };
    assert_eq!(cell.random_cell(), (7, 3));
}

#[test]
fn ids_in_the_order_of_strings() {
    let mut network: Network<f64> = Network::new();
    for id in ["b", "a", "\u{e9}", "ab", "", "B", "a\u{0}", "Node10", "Node2", "\u{1F600}", "\u{ffff}"] {
        network.add_node(node(id, 0.0, 0.0));
    }
    network.add_node(node("a", 1.0, 1.0));
    let sorted = network.sorted_ids();
    assert_eq!(
        sorted,
        vec!["", "B", "Node10", "Node2", "a", "a\u{0}", "ab", "b", "\u{e9}", "\u{ffff}", "\u{1F600}"]
    );
    let unsorted: Vec<String> = network.nodes().into_iter().map(|node| node.id).collect();
    assert_eq!(unsorted[0], "b");
    assert_eq!(unsorted.len(), sorted.len());
}

#[test]
fn no_nodes_no_ids() {
    let network: Network<f64> = Network::new();
    assert!(network.sorted_ids().is_empty());
}

#[test]
fn label_sides() {
    assert_eq!(link("link_A", "a", "b", 1, 1).label_side(), Some(true));
    assert_eq!(link("a", "a", "b", 1, 1).label_side(), Some(false));
    assert_eq!(link("b", "a", "b", 1, 1).label_side(), Some(true));
    assert_eq!(link("1x", "a", "b", 1, 1).label_side(), Some(false));
    assert_eq!(link("2x", "a", "b", 1, 1).label_side(), Some(true));
    assert_eq!(link("\u{e9}", "a", "b", 1, 1).label_side(), Some(false));
    assert_eq!(link("", "a", "b", 1, 1).label_side(), None);
}

#[test]
fn a_copy_of_a_link_is_the_link() {
    let record = link("link_A", "Node1", "Node2", 100, 10);
    let copy = record.clone();
    assert_eq!(copy.link_id, "link_A");
    assert_eq!(copy.source_node, "Node1");
    assert_eq!(copy.destination_node, "Node2");
    assert_eq!(copy.capacity, 100);
    assert_eq!(copy.weight, 10);
    let first = node("A", 1.0, 2.0);
    assert_eq!(first.clone(), first);
}
