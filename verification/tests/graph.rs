use reify_reflect::graph::arc::{collect_nodes_arc, node_id_of_arc, reflect_graph_arc, reify_graph_arc};
use reify_reflect::graph::{
    child_slots, collect_nodes, flatten, node_id_of, node_index, reflect_graph, reify_graph,
    walk_step, GraphError, NodeId, ReifiedGraph, WalkRow,
};
use std::cell::RefCell;
use std::rc::Rc;
use std::sync::{Arc, Mutex};

#[derive(Clone, Debug, PartialEq)]
struct Node {
    value: i32,
    children: Vec<Rc<RefCell<Node>>>,
}

fn children_of(n: &Node) -> Vec<Rc<RefCell<Node>>> {
    n.children.clone()
}

fn set_children_of(n: &mut Node, kids: Vec<Rc<RefCell<Node>>>) {
    n.children = kids;
}

fn leaf(value: i32) -> Rc<RefCell<Node>> {
    Rc::new(RefCell::new(Node {
        value,
        children: vec![],
    }))
}

#[test]
fn node_id_identity() {
    let a = leaf(1);
    let b = a.clone();
    assert_eq!(node_id_of(&a), node_id_of(&b));

    let c = leaf(1);
    assert_ne!(node_id_of(&a), node_id_of(&c));
}

#[test]
fn collect_nodes_simple_linked_list() {
    let c = leaf(2);
    let b = Rc::new(RefCell::new(Node {
        value: 1,
        children: vec![c.clone()],
    }));
    let a = Rc::new(RefCell::new(Node {
        value: 0,
        children: vec![b.clone()],
    }));

    let nodes = collect_nodes(&a, &children_of).unwrap();
    assert_eq!(nodes.len(), 3);
    assert_eq!(nodes[0].0, node_id_of(&a));
}

#[test]
fn collect_nodes_with_cycle() {
    let a = leaf(0);
    let b = Rc::new(RefCell::new(Node {
        value: 1,
        children: vec![a.clone()],
    }));
    a.borrow_mut().children.push(b.clone());

    let nodes = collect_nodes(&a, &children_of).unwrap();
    assert_eq!(nodes.len(), 2);
    // break the cycle so the nodes are freed
    a.borrow_mut().children.clear();
}

#[test]
fn reify_dag_with_shared_children() {
    let shared = leaf(99);
    let a = Rc::new(RefCell::new(Node {
        value: 1,
        children: vec![shared.clone()],
    }));
    let b = Rc::new(RefCell::new(Node {
        value: 2,
        children: vec![shared.clone()],
    }));
    let root = Rc::new(RefCell::new(Node {
        value: 0,
        children: vec![a.clone(), b.clone(), shared.clone()],
    }));

    let graph = reify_graph(root, children_of).unwrap();
    assert_eq!(graph.nodes.len(), 4);
    assert_eq!(graph.edges.len(), 5);
}

#[test]
fn reify_five_node_dag() {
    let n4 = leaf(4);
    let n3 = Rc::new(RefCell::new(Node {
        value: 3,
        children: vec![n4.clone()],
    }));
    let n2 = Rc::new(RefCell::new(Node {
        value: 2,
        children: vec![n3.clone()],
    }));
    let n1 = Rc::new(RefCell::new(Node {
        value: 1,
        children: vec![n3.clone(), n4.clone()],
    }));
    let n0 = Rc::new(RefCell::new(Node {
        value: 0,
        children: vec![n1.clone(), n2.clone()],
    }));

    let graph = reify_graph(n0, children_of).unwrap();
    assert_eq!(graph.nodes.len(), 5);
    assert_eq!(graph.edges.len(), 6);
}

#[test]
fn reify_visits_depth_first_in_child_order() {
    let n4 = leaf(4);
    let n3 = Rc::new(RefCell::new(Node {
        value: 3,
        children: vec![n4.clone()],
    }));
    let n2 = Rc::new(RefCell::new(Node {
        value: 2,
        children: vec![n3.clone()],
    }));
    let n1 = Rc::new(RefCell::new(Node {
        value: 1,
        children: vec![n3.clone(), n4.clone()],
    }));
    let n0 = Rc::new(RefCell::new(Node {
        value: 0,
        children: vec![n1.clone(), n2.clone()],
    }));
    let id = |n: &Rc<RefCell<Node>>| node_id_of(n);
    let graph = reify_graph(n0.clone(), children_of).unwrap();
    let values: Vec<i32> = graph.nodes.iter().map(|(_, n)| n.value).collect();
    assert_eq!(values, vec![0, 1, 3, 4, 2]);
    assert_eq!(graph.root, id(&n0));
    assert_eq!(
        graph.edges,
        vec![
            (id(&n0), id(&n1)),
            (id(&n0), id(&n2)),
            (id(&n1), id(&n3)),
            (id(&n1), id(&n4)),
            (id(&n3), id(&n4)),
            (id(&n2), id(&n3)),
        ]
    );
}

#[test]
fn round_trip_reify_reflect() {
    let leaf1 = leaf(10);
    let leaf2 = leaf(20);
    let root = Rc::new(RefCell::new(Node {
        value: 0,
        children: vec![leaf1, leaf2],
    }));

    let graph = reify_graph(root.clone(), children_of).unwrap();
    let rebuilt = reflect_graph(graph, set_children_of).unwrap();

    assert_eq!(rebuilt.borrow().value, 0);
    assert_eq!(rebuilt.borrow().children.len(), 2);

    let mut child_values: Vec<i32> = rebuilt
        .borrow()
        .children
        .iter()
        .map(|c| c.borrow().value)
        .collect();
    child_values.sort();
    assert_eq!(child_values, vec![10, 20]);
}

#[test]
fn round_trip_preserves_sharing() {
    let shared = leaf(42);
    let root = Rc::new(RefCell::new(Node {
        value: 0,
        children: vec![shared.clone(), shared.clone()],
    }));

    let graph = reify_graph(root, children_of).unwrap();
    let rebuilt = reflect_graph(graph, set_children_of).unwrap();

    let children = &rebuilt.borrow().children;
    assert_eq!(children.len(), 2);
    assert!(Rc::ptr_eq(&children[0], &children[1]));
    assert_eq!(node_id_of(&children[0]), node_id_of(&children[1]));
}

#[test]
fn graph_round_trip_shared_grandchild() {
    let shared = leaf(99);
    let a = Rc::new(RefCell::new(Node {
        value: 1,
        children: vec![shared.clone()],
    }));
    let root = Rc::new(RefCell::new(Node {
        value: 0,
        children: vec![a, shared],
    }));

    let graph = reify_graph(root, |n| n.children.clone()).unwrap();
    let rebuilt = reflect_graph(graph, |n, kids| n.children = kids).unwrap();

    assert_eq!(rebuilt.borrow().value, 0);
    assert_eq!(rebuilt.borrow().children.len(), 2);
    let c0_child = rebuilt.borrow().children[0].borrow().children[0].clone();
    let c1 = rebuilt.borrow().children[1].clone();
    assert!(Rc::ptr_eq(&c0_child, &c1));
    assert_eq!(c1.borrow().value, 99);
}

#[test]
fn hand_built_graph_plan() {
    let graph = ReifiedGraph {
        nodes: vec![(NodeId(0), "root"), (NodeId(1), "child"), (NodeId(1), "again")],
        edges: vec![(NodeId(0), NodeId(1)), (NodeId(5), NodeId(0)), (NodeId(0), NodeId(0))],
        root: NodeId(0),
    };
    assert_eq!(graph.nodes.len(), 3);
    // the last node with an identifier stands for it
    assert_eq!(node_index(&graph.nodes, NodeId(1)), Some(2));
    assert_eq!(node_index(&graph.nodes, NodeId(0)), Some(0));
    assert_eq!(node_index(&graph.nodes, NodeId(7)), None);
    // edges leaving NodeId(0), in order, resolved to node indices
    assert_eq!(child_slots(&graph, NodeId(0)), vec![2, 0]);
    assert_eq!(child_slots(&graph, NodeId(1)), Vec::<usize>::new());
}

#[test]
fn reflect_hand_built_cycle() {
    #[derive(Clone)]
    struct Cell {
        name: &'static str,
        next: Vec<Rc<RefCell<Cell>>>,
    }
    let graph = ReifiedGraph {
        nodes: vec![
            (NodeId(10), Cell { name: "a", next: vec![] }),
            (NodeId(20), Cell { name: "b", next: vec![] }),
        ],
        edges: vec![(NodeId(10), NodeId(20)), (NodeId(20), NodeId(10))],
        root: NodeId(10),
    };
    let a = reflect_graph(graph, |c, kids| c.next = kids).unwrap();
    let b = a.borrow().next[0].clone();
    assert_eq!(a.borrow().name, "a");
    assert_eq!(b.borrow().name, "b");
    assert!(Rc::ptr_eq(&b.borrow().next[0], &a));
    b.borrow_mut().next.clear();
}

#[derive(Clone, Debug)]
struct ANode {
    #[allow(dead_code)]
    value: i32,
    children: Vec<Arc<Mutex<ANode>>>,
}

fn arc_children_of(n: &ANode) -> Vec<Arc<Mutex<ANode>>> {
    n.children.clone()
}

fn arc_set_children_of(n: &mut ANode, kids: Vec<Arc<Mutex<ANode>>>) {
    n.children = kids;
}

#[test]
fn arc_node_id_identity() {
    let a = Arc::new(Mutex::new(ANode {
        value: 1,
        children: vec![],
    }));
    let b = a.clone();
    assert_eq!(node_id_of_arc(&a), node_id_of_arc(&b));

    let c = Arc::new(Mutex::new(ANode {
        value: 1,
        children: vec![],
    }));
    assert_ne!(node_id_of_arc(&a), node_id_of_arc(&c));
}

#[test]
fn arc_round_trip_preserves_sharing() {
    let shared = Arc::new(Mutex::new(ANode {
        value: 42,
        children: vec![],
    }));
    let root = Arc::new(Mutex::new(ANode {
        value: 0,
        children: vec![shared.clone(), shared.clone()],
    }));

    let graph = reify_graph_arc(root, arc_children_of).unwrap();
    let rebuilt = reflect_graph_arc(graph, arc_set_children_of).unwrap();

    let children = rebuilt.lock().unwrap().children.clone();
    assert_eq!(children.len(), 2);
    assert!(Arc::ptr_eq(&children[0], &children[1]));
}

#[test]
fn arc_cycle_detection() {
    let a = Arc::new(Mutex::new(ANode {
        value: 0,
        children: vec![],
    }));
    let b = Arc::new(Mutex::new(ANode {
        value: 1,
        children: vec![a.clone()],
    }));
    a.lock().unwrap().children.push(b.clone());

    let nodes = collect_nodes_arc(&a, &arc_children_of).unwrap();
    assert_eq!(nodes.len(), 2);
    a.lock().unwrap().children.clear();
}

#[test]
fn node_in_use_is_reported_not_panicked() {
    let l = leaf(1);
    let root = Rc::new(RefCell::new(Node {
        value: 0,
        children: vec![l.clone()],
    }));
    {
        let _held = l.borrow_mut();
        assert!(matches!(
            reify_graph(root.clone(), children_of),
            Err(GraphError::NodeInUse)
        ));
        assert!(matches!(
            collect_nodes(&root, &children_of),
            Err(GraphError::NodeInUse)
        ));
    }
    // Once released, the same graph flattens.
    assert_eq!(reify_graph(root, children_of).unwrap().nodes.len(), 2);
}

#[test]
fn locked_arc_node_is_reported() {
    let a = Arc::new(Mutex::new(ANode {
        value: 1,
        children: vec![],
    }));
    let guard = a.lock().unwrap();
    assert!(matches!(
        reify_graph_arc(a.clone(), arc_children_of),
        Err(GraphError::NodeInUse)
    ));
    drop(guard);
    assert_eq!(reify_graph_arc(a, arc_children_of).unwrap().nodes.len(), 1);
}

#[test]
fn walk_step_appends_new_row_and_pushes_children_last_first() {
    let mut table: Vec<WalkRow> = Vec::new();
    let mut stack: Vec<NodeId> = vec![NodeId(9)];
    walk_step(&mut table, &mut stack, NodeId(1), vec![NodeId(2), NodeId(3), NodeId(4)]);
    assert_eq!(table, vec![(NodeId(1), vec![NodeId(2), NodeId(3), NodeId(4)])]);
    assert_eq!(stack, vec![NodeId(9), NodeId(4), NodeId(3), NodeId(2)]);
}

#[test]
fn walk_step_ignores_a_visited_node() {
    let mut table: Vec<WalkRow> = vec![(NodeId(1), vec![NodeId(2)]), (NodeId(2), vec![NodeId(1)])];
    let mut stack: Vec<NodeId> = vec![NodeId(5)];
    walk_step(&mut table, &mut stack, NodeId(1), vec![NodeId(7), NodeId(8)]);
    assert_eq!(table, vec![(NodeId(1), vec![NodeId(2)]), (NodeId(2), vec![NodeId(1)])]);
    assert_eq!(stack, vec![NodeId(5)]);
}

#[test]
fn walk_steps_visit_a_diamond_once_each() {
    // a -> [b, c], b -> [d], c -> [d], d -> []
    let kids = |id: usize| -> Vec<NodeId> {
        match id {
            0 => vec![NodeId(1), NodeId(2)],
            1 => vec![NodeId(3)],
            2 => vec![NodeId(3)],
            _ => vec![],
        }
    };
    let mut table: Vec<WalkRow> = Vec::new();
    let mut stack: Vec<NodeId> = vec![NodeId(0)];
    while let Some(id) = stack.pop() {
        walk_step(&mut table, &mut stack, id, kids(id.0));
    }
    let order: Vec<NodeId> = table.iter().map(|r| r.0).collect();
    assert_eq!(order, vec![NodeId(0), NodeId(1), NodeId(3), NodeId(2)]);
}

#[test]
fn flatten_gives_ids_and_edges_in_row_order() {
    let rows: Vec<WalkRow> = vec![
        (NodeId(0), vec![NodeId(1), NodeId(2)]),
        (NodeId(1), vec![NodeId(2)]),
        (NodeId(2), vec![NodeId(0)]),
    ];
    let (ids, edges) = flatten(&rows);
    assert_eq!(ids, vec![NodeId(0), NodeId(1), NodeId(2)]);
    assert_eq!(
        edges,
        vec![
            (NodeId(0), NodeId(1)),
            (NodeId(0), NodeId(2)),
            (NodeId(1), NodeId(2)),
            (NodeId(2), NodeId(0)),
        ]
    );
}

#[test]
fn flatten_of_no_rows_is_empty() {
    let (ids, edges) = flatten(&Vec::new());
    assert!(ids.is_empty());
    assert!(edges.is_empty());
}
