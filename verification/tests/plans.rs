use dense_net::batch::{batches, next_epoch, BatchStep, UpdateStep};
use dense_net::example::Example;
use dense_net::network::Network;
use dense_net::schedule::{Nabla, Step};
use dense_net::shape::Shape;

fn shape(rows: usize, cols: usize) -> Shape {
    Shape { rows, cols }
}

#[test]
fn column_shape_has_one_column() {
    assert_eq!(Shape::column(784), shape(784, 1));
    assert!(shape(10, 1).is_column(10));
    assert!(!shape(10, 1).is_column(9));
    assert!(!shape(1, 10).is_column(10));
}

#[test]
fn layer_sizes_need_two_nonempty_layers() {
    assert!(Network::valid_layer_sizes(&vec![784, 30, 10]));
    assert!(Network::valid_layer_sizes(&vec![1, 1]));
    assert!(!Network::valid_layer_sizes(&vec![]));
    assert!(!Network::valid_layer_sizes(&vec![5]));
    assert!(!Network::valid_layer_sizes(&vec![5, 0, 3]));
    assert!(!Network::valid_layer_sizes(&vec![0, 3]));
    assert!(!Network::valid_layer_sizes(&vec![3, 0]));
}

#[test]
fn network_keeps_its_layer_sizes() {
    let net = Network::new(vec![784, 30, 10]);
    assert_eq!(net.num_layers(), 3);
    assert_eq!(net.transitions(), 2);
    assert_eq!(net.layer_sizes(), &vec![784, 30, 10]);
}

#[test]
fn default_network_has_three_layers() {
    let net = Network::default();
    assert_eq!(net.layer_sizes(), &vec![5, 7, 3]);
}

#[test]
fn parameter_shapes_follow_adjacent_layers() {
    let net = Network::new(vec![784, 30, 10]);
    assert_eq!(net.weight_shape(0), shape(30, 784));
    assert_eq!(net.bias_shape(0), shape(30, 1));
    assert_eq!(net.weight_shape(1), shape(10, 30));
    assert_eq!(net.bias_shape(1), shape(10, 1));
    assert_eq!(
        net.parameter_shapes(),
        vec![
            Nabla { b: shape(30, 1), w: shape(30, 784) },
            Nabla { b: shape(10, 1), w: shape(10, 30) },
        ]
    );
}

#[test]
fn forward_feeds_every_transition_in_order() {
    let net = Network::new(vec![4, 3, 2, 5]);
    assert_eq!(
        net.forward(shape(4, 1)),
        vec![
            Step::FeedForward { layer: 0 },
            Step::FeedForward { layer: 1 },
            Step::FeedForward { layer: 2 },
        ]
    );
}

#[test]
fn backprop_of_two_transitions() {
    let net = Network::new(vec![2, 2, 1]);
    assert_eq!(
        net.backprop(shape(2, 1), shape(1, 1)),
        vec![
            Step::FeedForward { layer: 0 },
            Step::FeedForward { layer: 1 },
            Step::OutputError { activation: 2, z: 1 },
            Step::Gradient { activation: 1 },
            Step::PropagateError { weights: 1, z: 0 },
            Step::Gradient { activation: 0 },
            Step::Reverse,
        ]
    );
}

#[test]
fn backprop_of_one_transition_has_no_way_back() {
    let net = Network::new(vec![3, 2]);
    assert_eq!(
        net.backprop(shape(3, 1), shape(2, 1)),
        vec![
            Step::FeedForward { layer: 0 },
            Step::OutputError { activation: 1, z: 0 },
            Step::Gradient { activation: 0 },
            Step::Reverse,
        ]
    );
}

#[test]
fn backprop_of_four_transitions_walks_down() {
    let net = Network::new(vec![6, 5, 4, 3, 2]);
    let plan = net.backprop(shape(6, 1), shape(2, 1));
    assert_eq!(plan.len(), 4 + 2 + 2 * 3 + 1);
    assert_eq!(plan[4], Step::OutputError { activation: 4, z: 3 });
    assert_eq!(plan[5], Step::Gradient { activation: 3 });
    assert_eq!(plan[6], Step::PropagateError { weights: 3, z: 2 });
    assert_eq!(plan[7], Step::Gradient { activation: 2 });
    assert_eq!(plan[8], Step::PropagateError { weights: 2, z: 1 });
    assert_eq!(plan[9], Step::Gradient { activation: 1 });
    assert_eq!(plan[10], Step::PropagateError { weights: 1, z: 0 });
    assert_eq!(plan[11], Step::Gradient { activation: 0 });
    assert_eq!(plan[12], Step::Reverse);
}

#[test]
fn accumulator_is_shaped_like_the_parameters() {
    let net = Network::new(vec![784, 30, 10]);
    let work = net.alloc_batch_work(16);
    assert_eq!(work.batch_length(), 16);
    assert_eq!(work.nablas(), &net.parameter_shapes());
    assert_eq!(work.nablas().len(), 2);
    assert_eq!(work.nablas()[1], Nabla { b: shape(10, 1), w: shape(10, 30) });
}

#[test]
fn mini_batch_resets_then_collects_then_sums() {
    let net = Network::new(vec![2, 2, 1]);
    let work = net.alloc_batch_work(3);
    assert_eq!(
        net.process_mini_batch(&work, 3),
        vec![
            BatchStep::Reset,
            BatchStep::Backprop { first: 0, end: 3 },
            BatchStep::Accumulate { example: 0 },
            BatchStep::Accumulate { example: 1 },
            BatchStep::Accumulate { example: 2 },
        ]
    );
}

#[test]
fn mini_batch_of_one_example() {
    let net = Network::new(vec![2, 2, 1]);
    let work = net.alloc_batch_work(1);
    assert_eq!(
        net.process_mini_batch(&work, 1),
        vec![
            BatchStep::Reset,
            BatchStep::Backprop { first: 0, end: 1 },
            BatchStep::Accumulate { example: 0 },
        ]
    );
}

#[test]
fn empty_mini_batch_adds_nothing() {
    let net = Network::new(vec![2, 1]);
    let work = net.alloc_batch_work(0);
    assert_eq!(
        net.process_mini_batch(&work, 0),
        vec![BatchStep::Reset, BatchStep::Backprop { first: 0, end: 0 }]
    );
}

#[test]
fn update_touches_biases_then_weights() {
    let net = Network::new(vec![4, 3, 2]);
    let work = net.alloc_batch_work(8);
    assert_eq!(
        net.update(&work),
        vec![
            UpdateStep::Bias { layer: 0 },
            UpdateStep::Bias { layer: 1 },
            UpdateStep::Weight { layer: 0 },
            UpdateStep::Weight { layer: 1 },
        ]
    );
}

#[test]
fn batches_drop_the_incomplete_tail() {
    assert_eq!(batches(10, 3), vec![(0, 3), (3, 6), (6, 9)]);
    assert_eq!(batches(9, 3), vec![(0, 3), (3, 6), (6, 9)]);
    assert_eq!(batches(2, 3), vec![]);
    assert_eq!(batches(0, 1), vec![]);
    assert_eq!(batches(3, 1), vec![(0, 1), (1, 2), (2, 3)]);
    assert_eq!(batches(60000, 16).len(), 3750);
    assert_eq!(batches(60000, 16)[3749], (59984, 60000));
}

#[test]
fn epoch_permutes_the_examples() {
    let mut data: Vec<Example> = (0..200usize).map(|i| Example::new(vec![(i % 256) as u8, (i / 256) as u8], i % 10, 10)).collect();
    let mut rng = rand::thread_rng();
    let bounds = next_epoch(&mut data, &mut rng, 16);
    assert_eq!(bounds.len(), 12);
    assert_eq!(bounds[0], (0, 16));
    assert_eq!(bounds[11], (176, 192));
    assert_eq!(data.len(), 200);
    let mut ids: Vec<usize> = data.iter().map(|e| e.x()[0] as usize + 256 * e.x()[1] as usize).collect();
    let moved = ids.iter().enumerate().any(|(at, id)| at != *id);
    assert!(moved);
    for e in data.iter() {
        let id = e.x()[0] as usize + 256 * e.x()[1] as usize;
        assert_eq!(e.class(), id % 10);
    }
    ids.sort();
    assert_eq!(ids, (0..200usize).collect::<Vec<usize>>());
}
