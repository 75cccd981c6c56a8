use std::collections::VecDeque;

use net_modeler::app::{add_request, carried, drag_step, AppModel, AppMsg, DragStep, Pointer};
use net_modeler::link::Link;
use net_modeler::load::Area;
use net_modeler::network::Network;
use net_modeler::node::Node;
use net_modeler::scalar::Scalar;
use net_modeler::ui::UiState;

#[derive(Clone, Copy, Debug, PartialEq)]
struct Real(f64);

impl Scalar for Real {
    fn ratio(numerator: u64, denominator: u64) -> Self {
        Real(numerator as f64 / denominator as f64)
    }

    fn plus(self, other: Self) -> Self {
        Real(self.0 + other.0)
    }

    fn minus(self, other: Self) -> Self {
        Real(self.0 - other.0)
    }

    fn times(self, other: Self) -> Self {
        Real(self.0 * other.0)
    }

    fn over(self, other: Self) -> Self {
        Real(self.0 / other.0)
    }

    fn root(self) -> Self {
        Real(self.0.sqrt())
    }

    fn at_least(self, other: Self) -> Self {
        Real(self.0.max(other.0))
    }

    fn within(self, low: Self, high: Self) -> Self {
        Real(self.0.clamp(low.0, high.0))
    }

    fn no_more_than(self, other: Self) -> bool {
        self.0 <= other.0
    }
}

fn pair(x: f64, y: f64) -> (Real, Real) {
    (Real(x), Real(y))
}

fn link(id: &str, source: &str, destination: &str, capacity: u8, weight: u8) -> Link {
    Link {
        link_id: id.to_string(),
        source_node: source.to_string(),
        destination_node: destination.to_string(),
        capacity,
        weight,
    }
}

fn three_links() -> Vec<Link> {
    vec![
        link("link_A", "Node1", "Node2", 100, 10),
        link("link_B", "Node2", "Node3", 50, 5),
        link("link_C", "Node1", "Node3", 75, 8),
    ]
}

fn model_of(points: &[(f64, f64)]) -> AppModel<Real> {
    let mut network = Network::new();
    for (i, p) in points.iter().enumerate() {
        network.add_node(Node { id: format!("node{}", i), point: pair(p.0, p.1) });
    }
    AppModel { network, dragged_node: None, canvas_offset_x: 250, uistate: UiState::default() }
}

fn pointer(x: f64, y: f64, pressed: bool, down: bool, released: bool) -> Pointer<Real> {
    Pointer { x: Real(x), y: Real(y), pressed, down, released }
}

fn kinds(queue: &VecDeque<AppMsg<Real>>) -> Vec<&'static str> {
    queue
        .iter()
        .map(|message| match message {
            AppMsg::AddPoint(_) => "add",
            AppMsg::StartDrag(_, _, _) => "start",
            AppMsg::UpdateDrag(_, _) => "update",
            AppMsg::EndDrag => "end",
        })
        .collect()
}

#[test]
fn drag_steps() {
    assert_eq!(drag_step(true, false, true), DragStep::Move);
    assert_eq!(drag_step(true, true, true), DragStep::Move);
    assert_eq!(drag_step(false, true, true), DragStep::Drop);
    assert_eq!(drag_step(false, false, true), DragStep::Stay);
    assert_eq!(drag_step(true, false, false), DragStep::Stay);
    assert_eq!(drag_step(true, true, false), DragStep::Stay);
    assert_eq!(drag_step(false, true, false), DragStep::Stay);
    assert_eq!(drag_step(false, false, false), DragStep::Stay);
}

#[test]
fn a_new_model_holds_the_records() {
    let model: AppModel<Real> = AppModel::init(&three_links(), Real(800.0), Real(600.0));
    assert_eq!(model.network.node_count(), 3);
    assert_eq!(model.network.edge_count(), 3);
    assert!(model.dragged_node.is_none());
    assert_eq!(model.canvas_offset_x, 250);
    assert_eq!(model.uistate.selected_start_index, 0);
    assert_eq!(model.uistate.selected_end_index, 0);
    let ids: Vec<String> = model.network.nodes().into_iter().map(|node| node.id).collect();
    assert_eq!(ids, vec!["Node1", "Node2", "Node3"]);
    let first = model.network.index_of("Node1").unwrap();
    let second = model.network.index_of("Node2").unwrap();
    let between = model.network.find_link(first, second).unwrap();
    assert_eq!(model.network.link(between).unwrap().weight, 10);
    for node in model.network.nodes() {
        assert!(50.0 <= node.point.0 .0 && node.point.0 .0 <= 750.0);
        assert!(50.0 <= node.point.1 .0 && node.point.1 .0 <= 550.0);
    }
}

#[test]
fn a_new_model_of_no_records() {
    let model: AppModel<Real> = AppModel::init(&Vec::new(), Real(800.0), Real(600.0));
    assert_eq!(model.network.node_count(), 0);
    assert_eq!(model.network.edge_count(), 0);
}

#[test]
fn scattered_nodes_lie_on_whole_cells_of_the_area() {
    let area = Area { left: 50, right: 500, top: 50, bottom: 550 };
    let network: Network<Real> = Network::scattered(&three_links(), area);
    assert_eq!(network.node_count(), 3);
    assert_eq!(network.edge_count(), 3);
    for node in network.nodes() {
        let (x, y) = (node.point.0 .0, node.point.1 .0);
        assert!(50.0 <= x && x < 500.0);
        assert!(50.0 <= y && y < 550.0);
        assert_eq!(x, x.trunc());
        assert_eq!(y, y.trunc());
    }
    assert_eq!(area.random_point::<Real>().0 .0.fract(), 0.0);
}

#[test]
fn a_press_on_a_node_takes_hold_of_it() {
    let model = model_of(&[(100.0, 100.0), (300.0, 200.0)]);
    let start = model.press(&pointer(250.0 + 305.0, 203.0, true, true, false));
    match start {
        Some(AppMsg::StartDrag(index, offset_x, offset_y)) => {
            assert_eq!(index, 1);
            assert_eq!(offset_x, Real(5.0));
            assert_eq!(offset_y, Real(3.0));
        }
        _ => panic!("the press should take hold of the second node"),
    }
}

#[test]
fn a_press_beside_the_nodes_takes_hold_of_none() {
    let model = model_of(&[(100.0, 100.0), (300.0, 200.0)]);
    assert!(model.press(&pointer(250.0 + 200.0, 150.0, true, true, false)).is_none());
    assert!(model.press(&pointer(105.0, 105.0, true, true, false)).is_none());
}

#[test]
fn without_a_press_nothing_is_taken_hold_of() {
    let model = model_of(&[(100.0, 100.0)]);
    assert!(model.press(&pointer(350.0, 100.0, false, true, false)).is_none());
    assert!(model.press(&pointer(350.0, 100.0, false, false, true)).is_none());
    assert!(model.press(&pointer(350.0, 100.0, true, false, false)).is_some());
}

#[test]
fn a_drag_follows_the_pointer_on_the_canvas() {
    let mut model = model_of(&[(100.0, 100.0)]);
    model.dragged_node = Some((0, Real(2.0), Real(3.0)));
    match model.drag(&pointer(400.0, 120.0, false, true, false)) {
        Some(AppMsg::UpdateDrag(x, y)) => {
            assert_eq!(x, Real(150.0));
            assert_eq!(y, Real(120.0));
        }
        _ => panic!("the drag should follow the pointer"),
    }
    assert!(matches!(model.drag(&pointer(400.0, 120.0, false, false, true)), Some(AppMsg::EndDrag)));
    assert!(matches!(model.drag(&pointer(400.0, 120.0, false, true, true)), Some(AppMsg::UpdateDrag(_, _))));
    assert!(model.drag(&pointer(400.0, 120.0, false, false, false)).is_none());
    model.dragged_node = None;
    assert!(model.drag(&pointer(400.0, 120.0, false, true, false)).is_none());
    assert!(model.drag(&pointer(400.0, 120.0, false, false, true)).is_none());
}

#[test]
fn input_queues_a_start_and_then_what_the_drag_does() {
    let mut model = model_of(&[(100.0, 100.0)]);
    let mut queue: VecDeque<AppMsg<Real>> = VecDeque::new();
    queue.push_back(AppMsg::EndDrag);
    model.handle_input(&pointer(350.0, 100.0, true, true, false), &mut queue);
    assert_eq!(kinds(&queue), vec!["end", "start"]);
    model.dragged_node = Some((0, Real(0.0), Real(0.0)));
    model.handle_input(&pointer(350.0, 100.0, true, true, false), &mut queue);
    assert_eq!(kinds(&queue), vec!["end", "start", "start", "update"]);
    model.handle_input(&pointer(900.0, 100.0, false, false, true), &mut queue);
    assert_eq!(kinds(&queue), vec!["end", "start", "start", "update", "end"]);
    model.handle_input(&pointer(900.0, 100.0, false, false, false), &mut queue);
    assert_eq!(queue.len(), 5);
    model.dragged_node = None;
    model.handle_input(&pointer(900.0, 100.0, true, true, true), &mut queue);
    assert_eq!(queue.len(), 5);
}

#[test]
fn added_points_are_named_by_the_count() {
    let mut model = model_of(&[]);
    model.update(AppMsg::AddPoint(pair(10.0, 20.0)), Real(800.0), Real(600.0));
    model.update(AppMsg::AddPoint(pair(30.0, 40.0)), Real(800.0), Real(600.0));
    let nodes = model.network.nodes();
    assert_eq!(nodes.len(), 2);
    assert_eq!(nodes[0], Node { id: "node0".to_string(), point: pair(10.0, 20.0) });
    assert_eq!(nodes[1], Node { id: "node1".to_string(), point: pair(30.0, 40.0) });
    for _ in 2..12 {
        model.update(AppMsg::AddPoint(pair(0.0, 0.0)), Real(800.0), Real(600.0));
    }
    assert_eq!(model.network.node(11).unwrap().id, "node11");
    assert!(model.dragged_node.is_none());
}

#[test]
fn an_added_point_under_a_taken_name_adds_nothing() {
    let mut model = model_of(&[]);
    model.network.add_node(Node { id: "node1".to_string(), point: pair(1.0, 1.0) });
    model.update(AppMsg::AddPoint(pair(30.0, 40.0)), Real(800.0), Real(600.0));
    assert_eq!(model.network.node_count(), 1);
    assert_eq!(model.network.position(0), pair(1.0, 1.0));
}

#[test]
fn start_and_end_of_a_drag() {
    let mut model = model_of(&[(100.0, 100.0), (200.0, 200.0)]);
    model.update(AppMsg::StartDrag(1, Real(2.0), Real(-3.0)), Real(800.0), Real(600.0));
    assert_eq!(model.dragged_node, Some((1, Real(2.0), Real(-3.0))));
    assert_eq!(model.network.position(1), pair(200.0, 200.0));
    model.update(AppMsg::EndDrag, Real(800.0), Real(600.0));
    assert_eq!(model.dragged_node, None);
    assert_eq!(model.network.position(0), pair(100.0, 100.0));
    assert_eq!(model.network.position(1), pair(200.0, 200.0));
}

#[test]
fn the_held_node_goes_where_the_pointer_goes() {
    let mut model = model_of(&[(100.0, 100.0), (200.0, 200.0)]);
    model.update(AppMsg::StartDrag(1, Real(2.0), Real(-3.0)), Real(800.0), Real(600.0));
    model.update(AppMsg::UpdateDrag(Real(302.0), Real(147.0)), Real(800.0), Real(600.0));
    assert_eq!(model.network.position(1), pair(300.0, 150.0));
    assert_eq!(model.network.position(0), pair(100.0, 100.0));
    assert_eq!(model.dragged_node, Some((1, Real(2.0), Real(-3.0))));
    model.update(AppMsg::UpdateDrag(Real(5000.0), Real(-5000.0)), Real(800.0), Real(600.0));
    assert_eq!(model.network.position(1), pair(750.0, 50.0));
    assert_eq!(model.network.node(1).unwrap().id, "node1");
}

#[test]
fn without_a_held_node_the_pointer_moves_nothing() {
    let mut model = model_of(&[(100.0, 100.0), (200.0, 200.0)]);
    model.update(AppMsg::UpdateDrag(Real(302.0), Real(147.0)), Real(800.0), Real(600.0));
    assert_eq!(model.network.position(0), pair(100.0, 100.0));
    assert_eq!(model.network.position(1), pair(200.0, 200.0));
    model.update(AppMsg::StartDrag(9, Real(0.0), Real(0.0)), Real(800.0), Real(600.0));
    model.update(AppMsg::UpdateDrag(Real(302.0), Real(147.0)), Real(800.0), Real(600.0));
    assert_eq!(model.network.position(0), pair(100.0, 100.0));
    assert_eq!(model.network.position(1), pair(200.0, 200.0));
}

#[test]
fn carried_positions() {
    assert_eq!(
        carried(Real(302.0), Real(147.0), Real(2.0), Real(-3.0), Real(800.0), Real(600.0)),
        pair(300.0, 150.0)
    );
    assert_eq!(
        carried(Real(10.0), Real(900.0), Real(0.0), Real(0.0), Real(800.0), Real(600.0)),
        pair(50.0, 550.0)
    );
}

#[test]
fn press_drag_and_release_move_a_node() {
    let mut model = model_of(&[(100.0, 100.0), (300.0, 200.0)]);
    let mut queue: VecDeque<AppMsg<Real>> = VecDeque::new();
    let frames = [
        pointer(555.0, 203.0, true, true, false),
        pointer(600.0, 260.0, false, true, false),
        pointer(640.0, 300.0, false, true, false),
        pointer(640.0, 300.0, false, false, true),
        pointer(700.0, 400.0, false, false, false),
    ];
    for frame in frames.iter() {
        model.handle_input(frame, &mut queue);
        while let Some(message) = queue.pop_front() {
            model.update(message, Real(800.0), Real(600.0));
        }
    }
    assert!(model.dragged_node.is_none());
    assert_eq!(model.network.position(0), pair(100.0, 100.0));
    assert_eq!(model.network.position(1), pair(640.0 - 250.0 - 5.0, 300.0 - 3.0));
}

#[test]
fn requests_for_a_node_at_a_random_place() {
    let mut seen_other_than_corner = false;
    for _ in 0..200 {
        match add_request::<Real>() {
            AppMsg::AddPoint((x, y)) => {
                assert!(250.0 <= x.0 && x.0 < 950.0);
                assert!(50.0 <= y.0 && y.0 < 750.0);
                assert_eq!(x.0.fract(), 0.0);
                assert_eq!(y.0.fract(), 0.0);
                if x.0 != 250.0 || y.0 != 50.0 {
                    seen_other_than_corner = true;
                }
            }
            _ => panic!("the request should ask for a point"),
        }
    }
    assert!(seen_other_than_corner);
}
