//! The forward pass and the backward pass over one example, as sequences of
//! steps.
use vstd::prelude::*;
use crate::network::{Network, valid_topology};
use crate::schedule::{
    bias_shape, weight_shape, Expr, GradientValue, Registers, Step, Value, lemma_run_push,
};
use crate::shape::Shape;

verus! {

/// The activation of layer `layer`: the input for the input layer, and for every
/// other layer the sigmoid of the weighted sum of the activation below it, plus
/// the biases.
pub open spec fn activation(layer: nat) -> Expr
    decreases layer,
{
    if layer == 0 {
        Expr::Input
    } else {
        Expr::Sigmoid(
            Box::new(
                Expr::Sum(
                    Box::new(
                        Expr::Product(
                            Box::new(Expr::Weights((layer - 1) as nat)),
                            Box::new(activation((layer - 1) as nat)),
                        ),
                    ),
                    Box::new(Expr::Biases((layer - 1) as nat)),
                ),
            ),
        )
    }
}

/// The pre-activation of transition `layer`: the weighted sum of the
/// activation of the layer it comes from, plus the biases.
pub open spec fn pre_activation(layer: nat) -> Expr {
    Expr::Sum(
        Box::new(
            Expr::Product(Box::new(Expr::Weights(layer)), Box::new(activation(layer))),
        ),
        Box::new(Expr::Biases(layer)),
    )
}

/// The error at the layer that transition `layer` leads to, in a network with
/// `transitions` transitions. At the output layer it is the difference between
/// output and target; at every other layer it is the error of the layer above,
/// pulled back through the weights of the transition above. Either is scaled,
/// entry by entry, by the derivative of the sigmoid at the layer's
/// pre-activation.
pub open spec fn error(transitions: nat, layer: nat) -> Expr
    decreases transitions - layer,
{
    if layer + 1 >= transitions {
        Expr::Hadamard(
            Box::new(
                Expr::Difference(Box::new(activation(layer + 1)), Box::new(Expr::Target)),
            ),
            Box::new(Expr::SigmoidPrime(Box::new(pre_activation(layer)))),
        )
    } else {
        Expr::Hadamard(
            Box::new(
                Expr::Product(
                    Box::new(Expr::Transposed(Box::new(Expr::Weights(layer + 1)))),
                    Box::new(error(transitions, layer + 1)),
                ),
            ),
            Box::new(Expr::SigmoidPrime(Box::new(pre_activation(layer)))),
        )
    }
}

/// The gradient of the cost with respect to the parameters of transition
/// `layer`: for the biases the error at the layer it leads to, for the weights
/// the outer product of that error with the activation of the layer it comes
/// from.
pub open spec fn gradient(sizes: Seq<usize>, layer: nat) -> GradientValue {
    GradientValue {
        b: Value {
            shape: bias_shape(sizes, layer as int),
            expr: error((sizes.len() - 1) as nat, layer),
        },
        w: Value {
            shape: weight_shape(sizes, layer as int),
            expr: Expr::Product(
                Box::new(error((sizes.len() - 1) as nat, layer)),
                Box::new(Expr::Transposed(Box::new(activation(layer)))),
            ),
        },
    }
}

/// The registers once the input has been fed forward through the first
/// `layers` transitions and no error has been computed yet: every activation
/// and pre-activation is there, as a column with one entry for each neuron of
/// its layer.
pub open spec fn fed(sizes: Seq<usize>, target: Shape, layers: nat) -> Registers {
    Registers {
        target,
        activations: Seq::new(
            layers + 1,
            |k: int| Value { shape: Shape::column_of(sizes[k]), expr: activation(k as nat) },
        ),
        zs: Seq::new(
            layers,
            |t: int| Value { shape: bias_shape(sizes, t), expr: pre_activation(t as nat) },
        ),
        delta: None,
        nablas: Seq::empty(),
    }
}

/// The registers in the backward pass once the gradients of the last `rounds`
/// transitions have been appended, last transition first: the error is that of
/// the lowest of these transitions.
pub open spec fn descending(sizes: Seq<usize>, target: Shape, rounds: nat) -> Registers {
    Registers {
        delta: Some(gradient(sizes, (sizes.len() - 1 - rounds) as nat).b),
        nablas: Seq::new(rounds, |j: int| gradient(sizes, (sizes.len() - 2 - j) as nat)),
        ..fed(sizes, target, (sizes.len() - 1) as nat)
    }
}

/// The registers at the end of backpropagation: an activation for every layer,
/// a pre-activation and a gradient for every transition, the gradients in the
/// order of the transitions.
pub open spec fn finished(sizes: Seq<usize>, target: Shape) -> Registers {
    Registers {
        delta: Some(gradient(sizes, 0).b),
        nablas: Seq::new((sizes.len() - 1) as nat, |t: int| gradient(sizes, t as nat)),
        ..fed(sizes, target, (sizes.len() - 1) as nat)
    }
}

/// The steps that feed an input forward through the first `layers` transitions,
/// in order.
pub open spec fn forward_steps(layers: nat) -> Seq<Step> {
    Seq::new(layers, |layer: int| Step::FeedForward { layer: layer as usize })
}

/// The two steps that open the backward pass of a network with `transitions`
/// transitions: the error at the output layer, then the gradient of the last
/// transition.
pub open spec fn output_steps(transitions: nat) -> Seq<Step> {
    seq![
        Step::OutputError { activation: transitions as usize, z: (transitions - 1) as usize },
        Step::Gradient { activation: (transitions - 1) as usize },
    ]
}

/// The steps that carry the error back through `rounds` further transitions,
/// starting below the last one: for each, first the error is pulled back
/// through the weights of the transition above, then the gradient is taken.
pub open spec fn backward_steps(transitions: nat, rounds: nat) -> Seq<Step> {
    Seq::new(
        2 * rounds,
        |j: int|
            if j % 2 == 0 {
                Step::PropagateError {
                    weights: (transitions - 1 - j / 2) as usize,
                    z: (transitions - 2 - j / 2) as usize,
                }
            } else {
                Step::Gradient { activation: (transitions - 2 - j / 2) as usize }
            },
    )
}

/// All steps of backpropagation for one example: the forward pass, the output
/// error, the way back down to the first transition, and the reversal that
/// puts the gradients in the order of the transitions.
pub open spec fn backprop_steps(transitions: nat) -> Seq<Step> {
    forward_steps(transitions) + output_steps(transitions) + backward_steps(
        transitions,
        (transitions - 1) as nat,
    ) + seq![Step::Reverse]
}

impl Network {
    /// The steps that compute the network's output for an input of shape
    /// `input`, which must be a column with one entry for each neuron of the
    /// input layer. Carried out from the input alone, they leave the activation
    /// of every layer; the last of them, the output, is a column with one entry
    /// for each neuron of the output layer.
    pub fn forward(&self, input: Shape) -> (plan: Vec<Step>)
        requires
            input == Shape::column_of(self@[0]),
        ensures
            plan@ == forward_steps((self@.len() - 1) as nat),
            forall|target: Shape| #[trigger]
                Registers::start(input, target).run(self@, plan@) == Some(
                    fed(self@, target, (self@.len() - 1) as nat),
                ),
            forall|target: Shape| #[trigger]
                fed(self@, target, (self@.len() - 1) as nat).activations.last() == (Value {
                    shape: Shape::column_of(self@.last()),
                    expr: activation((self@.len() - 1) as nat),
                }),
    {
        let num_layers = self.num_layers();
        let mut plan: Vec<Step> = Vec::new();
        assert forall|target: Shape| #[trigger]
            Registers::start(input, target).run(self@, plan@) == Some(
                fed(self@, target, 0),
            ) by {
            assert(Registers::start(input, target) =~= fed(self@, target, 0));
        }
        for i in 1..num_layers
            invariant
                num_layers == self@.len(),
                valid_topology(self@),
                plan@ =~= forward_steps((i - 1) as nat),
                forall|target: Shape| #[trigger]
                    Registers::start(input, target).run(self@, plan@) == Some(
                        fed(self@, target, (i - 1) as nat),
                    ),
        {
            assert forall|target: Shape| #[trigger]
                Registers::start(input, target).run(
                    self@,
                    plan@.push(Step::FeedForward { layer: (i - 1) as usize }),
                ) == Some(fed(self@, target, i as nat)) by {
                lemma_run_push(
                    Registers::start(input, target),
                    self@,
                    plan@,
                    Step::FeedForward { layer: (i - 1) as usize },
                );
                assert(Registers::start(input, target).run(self@, plan@).is_some());
                assert(fed(self@, target, (i - 1) as nat).after(
                    self@,
                    Step::FeedForward { layer: (i - 1) as usize },
                ).unwrap() =~= fed(self@, target, i as nat));
            }
            plan.push(Step::FeedForward { layer: i - 1 });
        }
        plan
    }

    /// The steps of backpropagation for one example whose input has the shape
    /// `x` and whose target has the shape `y`: columns with one entry for each
    /// neuron of the input layer and of the output layer. Every step reads only
    /// values that earlier steps have left, with shapes that fit, and at the end
    /// there is the gradient of every transition, in the order of the
    /// transitions, each with the shapes of that transition's weights and biases.
    pub fn backprop(&self, x: Shape, y: Shape) -> (plan: Vec<Step>)
        requires
            x == Shape::column_of(self@[0]),
            y == Shape::column_of(self@.last()),
        ensures
            plan@ == backprop_steps((self@.len() - 1) as nat),
            Registers::start(x, y).run(self@, plan@) == Some(finished(self@, y)),
    {
        let num_layers = self.num_layers();
        let ghost sizes = self@;
        let ghost start = Registers::start(x, y);
        let ghost transitions = (num_layers - 1) as nat;
        let mut plan: Vec<Step> = Vec::new();

        // Feed forward
        assert(start =~= fed(sizes, y, 0));
        for i in 1..num_layers
            invariant
                num_layers == sizes.len(),
                valid_topology(sizes),
                plan@ =~= forward_steps((i - 1) as nat),
                start.run(sizes, plan@) == Some(fed(sizes, y, (i - 1) as nat)),
        {
            proof {
                lemma_run_push(start, sizes, plan@, Step::FeedForward { layer: (i - 1) as usize });
                assert(fed(sizes, y, (i - 1) as nat).after(
                    sizes,
                    Step::FeedForward { layer: (i - 1) as usize },
                ).unwrap() =~= fed(sizes, y, i as nat));
            }
            plan.push(Step::FeedForward { layer: i - 1 });
        }
        // How many activations, pre-activations and weight matrices there are by now.
        let activations = num_layers;
        let zs = num_layers - 1;
        let weights = num_layers - 1;

        // Output error
        proof {
            let before = fed(sizes, y, transitions);
            let output = Step::OutputError {
                activation: (activations - 1) as usize,
                z: (zs - 1) as usize,
            };
            let gradient = Step::Gradient { activation: (activations - 2) as usize };
            lemma_run_push(start, sizes, plan@, output);
            lemma_run_push(start, sizes, plan@.push(output), gradient);
            assert(before.after(sizes, output).unwrap().after(sizes, gradient).unwrap()
                =~= descending(sizes, y, 1));
        }
        plan.push(Step::OutputError { activation: activations - 1, z: zs - 1 });
        plan.push(Step::Gradient { activation: activations - 2 });
        assert(plan@ =~= forward_steps(transitions) + output_steps(transitions) + backward_steps(
            transitions,
            0,
        ));

        // Backpropagate
        for i in 2..num_layers
            invariant
                num_layers == sizes.len(),
                transitions == num_layers - 1,
                activations == num_layers,
                zs == num_layers - 1,
                weights == num_layers - 1,
                valid_topology(sizes),
                plan@ =~= forward_steps(transitions) + output_steps(transitions) + backward_steps(
                    transitions,
                    (i - 2) as nat,
                ),
                start.run(sizes, plan@) == Some(descending(sizes, y, (i - 1) as nat)),
        {
            proof {
                let before = descending(sizes, y, (i - 1) as nat);
                let pull = Step::PropagateError {
                    weights: (weights - i + 1) as usize,
                    z: (zs - i) as usize,
                };
                let gradient = Step::Gradient { activation: (activations - i - 1) as usize };
                lemma_run_push(start, sizes, plan@, pull);
                lemma_run_push(start, sizes, plan@.push(pull), gradient);
                assert(before.after(sizes, pull).unwrap().after(sizes, gradient).unwrap()
                    =~= descending(sizes, y, i as nat));
            }
            plan.push(Step::PropagateError { weights: weights - i + 1, z: zs - i });
            plan.push(Step::Gradient { activation: activations - i - 1 });
        }

        proof {
            lemma_run_push(start, sizes, plan@, Step::Reverse);
            assert(descending(sizes, y, transitions).after(sizes, Step::Reverse).unwrap()
                =~= finished(sizes, y));
        }
        plan.push(Step::Reverse);
        assert(plan@ =~= backprop_steps(transitions));
        plan
    }
}

} // verus!
