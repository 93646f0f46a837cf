//! The component graph: layers, edges, neighbour lookups and weak refs.

use starframe::graph::Graph;
use starframe::graph::Layer;

#[derive(Clone, Copy, Debug, PartialEq, Eq)]
struct Transform(usize);
#[derive(Clone, Copy, Debug, PartialEq, Eq)]
struct Velocity(usize);
#[derive(Clone, Copy, Debug, PartialEq, Eq)]
struct RigidBody(usize);
#[derive(Clone, Copy, Debug, PartialEq, Eq)]
struct Shape(usize);

/// Creating layers generates the correct storages.
#[test]
fn create_layers() {
    let mut graph = Graph::new();
    let l0: Layer<Transform> = graph.create_layer();
    let l1: Layer<Velocity> = graph.create_layer();

    // both layers should now have two target layers
    assert_eq!(graph.num_layers(), 2);
    assert_eq!(graph.target_slot_count(0), 2);
    assert_eq!(graph.target_slot_count(1), 2);
    let _ = (l0, l1);

    // this should add a target layer to everyone
    let l2: Layer<Shape> = graph.create_layer();
    assert_eq!(graph.target_slot_count(0), 3);
    assert_eq!(graph.target_slot_count(1), 3);
    assert_eq!(graph.target_slot_count(2), 3);
    let _ = l2;
}

/// Nodes can be connected and then queried for their neighbors.
/// Multiple ownership works.
#[test]
fn connect_nodes() {
    let mut graph = Graph::new();
    let mut trs: Layer<Transform> = graph.create_layer();
    let mut vels: Layer<Velocity> = graph.create_layer();
    let mut rbs: Layer<RigidBody> = graph.create_layer();
    let mut shapes: Layer<Shape> = graph.create_layer();

    let everyones_shape = shapes.push(Shape(69)).downgrade();
    // do this a few times to make sure we connect correctly even with
    // multiple objects there
    for i in 0..3 {
        let tr_node = trs.push(Transform(i));
        let vel_node = vels.push(Velocity(i));
        let rb_node = rbs.push(RigidBody(i));
        {
            let shape_node = everyones_shape.upgrade(&shapes);
            graph.connect_oneway(&rb_node, &shape_node);
        }
        graph.connect(&vel_node, &tr_node);
        graph.connect(&rb_node, &tr_node);
        graph.connect(&rb_node, &vel_node);
        assert_eq!(
            graph.get_neighbor(&rb_node, &shapes).map(|n| *n.item),
            Some(Shape(69))
        );
        assert_eq!(
            graph.get_neighbor(&tr_node, &rbs).map(|n| *n.item),
            Some(RigidBody(i))
        );
        assert!(graph.get_neighbor(&tr_node, &shapes).is_none());

        // spawn something with different connections in between
        let tr_node_ = trs.push(Transform(42 + i));
        let shape_node_ = shapes.push(Shape(i));
        graph.connect(&tr_node_, &shape_node_);
        assert_eq!(
            graph.get_neighbor(&tr_node_, &shapes).map(|n| *n.item),
            Some(Shape(i))
        );
    }
}

/// Iterating a layer visits the components in insertion order and follows
/// only real connections.
#[test]
fn iterate() {
    let mut graph = Graph::new();
    let mut trs: Layer<Transform> = graph.create_layer();
    let mut vels: Layer<Velocity> = graph.create_layer();
    let mut rbs: Layer<RigidBody> = graph.create_layer();
    let mut shapes: Layer<Shape> = graph.create_layer();

    let everyones_shape = shapes.push(Shape(69)).downgrade();

    for i in 0..10 {
        let tr_node = trs.push(Transform(i));
        let vel_node = vels.push(Velocity(i));
        let rb_node = rbs.push(RigidBody(10 - i));
        graph.connect(&rb_node, &tr_node);
        if i % 2 == 0 {
            graph.connect(&tr_node, &vel_node);
        }
        if i % 4 == 0 {
            let shape_node = everyones_shape.upgrade(&shapes);
            graph.connect_oneway(&rb_node, &shape_node);
        }
    }

    let mut match_count = 0; // not including shape
    let mut full_match_count = 0; // including shape
    let mut iter = rbs.iter();
    while let Some(rb) = iter.next() {
        let tr = match graph.get_neighbor(&rb, &trs) {
            Some(tr) => tr,
            None => continue,
        };
        let vel = match graph.get_neighbor(&tr, &vels) {
            Some(vel) => vel,
            None => continue,
        };
        match_count += 1;

        let shape = graph.get_neighbor(&rb, &shapes);
        if shape.is_some() {
            full_match_count += 1;
        }

        // test that only real connections were followed
        assert_eq!(vel.item.0 % 2, 0);
    }
    assert_eq!(match_count, 5);
    assert_eq!(full_match_count, 3);
}

/// A full walk of a layer reproduces the insertion order, component by
/// component.
#[test]
fn iteration_reproduces_insertion_order() {
    let mut graph = Graph::new();
    let mut layer: Layer<Transform> = graph.create_layer();
    let inserted: Vec<usize> = vec![5, 3, 9, 9, 1, 0, 42];
    for &v in &inserted {
        layer.push(Transform(v));
    }
    let mut seen: Vec<usize> = Vec::new();
    let mut iter = layer.iter();
    while let Some(node) = iter.next() {
        assert_eq!(node.item_idx, seen.len());
        seen.push(node.item.0);
    }
    assert_eq!(seen, inserted);
}

/// Downgrading a node and upgrading the key with the originating layer
/// returns a reference equal to the original.
#[test]
fn downgrade_upgrade_roundtrip() {
    let mut graph = Graph::new();
    let mut layer: Layer<Shape> = graph.create_layer();
    layer.push(Shape(1));
    let node = layer.push(Shape(7));
    let idx = node.item_idx;
    let lid = node.layer_idx;
    let item = *node.item;
    let weak = node.downgrade();
    let back = weak.upgrade(&layer);
    assert_eq!(back.item_idx, idx);
    assert_eq!(back.layer_idx, lid);
    assert_eq!(*back.item, item);
}

/// Connecting the same shared node one-way from several owners: iteration
/// over the owners visits all of them and each resolves to the same target.
#[test]
fn shared_target_oneway() {
    let mut graph = Graph::new();
    let mut owners: Layer<Transform> = graph.create_layer();
    let mut targets: Layer<Shape> = graph.create_layer();

    let shared = targets.push(Shape(99)).downgrade();
    // a second target that nothing points at
    targets.push(Shape(1));

    for i in 0..5 {
        let owner = owners.push(Transform(i));
        let target = shared.upgrade(&targets);
        graph.connect_oneway(&owner, &target);
        // idempotent: connecting the identical target again is fine
        let target_again = shared.upgrade(&targets);
        graph.connect_oneway(&owner, &target_again);
    }

    let mut visited = 0;
    let mut iter = owners.iter();
    while let Some(owner) = iter.next() {
        let t = graph.get_neighbor(&owner, &targets).expect("edge missing");
        assert_eq!(*t.item, Shape(99));
        assert_eq!(t.item_idx, 0);
        visited += 1;
    }
    assert_eq!(visited, 5);
}

/// A neighbour can be borrowed mutably and written through the graph.
#[test]
fn neighbor_mutation() {
    let mut graph = Graph::new();
    let mut owners: Layer<Transform> = graph.create_layer();
    let mut values: Layer<Velocity> = graph.create_layer();
    let owner = owners.push(Transform(0));
    {
        let value = values.push(Velocity(10));
        graph.connect(&owner, &value);
    }
    if let Some(v) = graph.get_neighbor_mut(&owner, &mut values) {
        v.0 = 20;
    } else {
        panic!("edge missing");
    }
    let idx = {
        let read = graph.get_neighbor(&owner, &values).expect("edge missing");
        assert_eq!(*read.item, Velocity(20));
        read.item_idx
    };
    // direct indexed access agrees
    assert_eq!(*values.get(idx), Velocity(20));
    *values.get_mut(idx) = Velocity(30);
    assert_eq!(*values.get(idx), Velocity(30));
}
