//! The tensor operations that a pass over the network consists of, and the
//! shapes of the values they leave behind.
use vstd::prelude::*;
use crate::shape::Shape;

verus! {

/// The shapes of the gradient of one layer transition: `w` for its weight
/// matrix, `b` for its bias vector.
#[derive(Clone, Copy, Debug, PartialEq, Eq, Structural)]
pub struct Nabla {
    pub b: Shape,
    pub w: Shape,
}

/// Shape of the weight matrix of layer transition `layer` in a network with the
/// layer sizes `sizes`.
pub open spec fn weight_shape(sizes: Seq<usize>, layer: int) -> Shape {
    Shape { rows: sizes[layer + 1], cols: sizes[layer] }
}

/// Shape of the bias vector of layer transition `layer`.
pub open spec fn bias_shape(sizes: Seq<usize>, layer: int) -> Shape {
    Shape::column_of(sizes[layer + 1])
}

/// Shapes of the gradient of layer transition `layer`: those of its parameters.
pub open spec fn nabla_shape(sizes: Seq<usize>, layer: int) -> Nabla {
    Nabla { b: bias_shape(sizes, layer), w: weight_shape(sizes, layer) }
}

/// Shapes of the gradients of all transitions of a network, first transition
/// first.
pub open spec fn gradient_shapes(sizes: Seq<usize>) -> Seq<Nabla> {
    Seq::new((sizes.len() - 1) as nat, |t: int| nabla_shape(sizes, t))
}

/// What a value is, as a formula over the input `x`, the target `y` and the
/// network's parameters.
pub enum Expr {
    /// The input `x`.
    Input,
    /// The target `y`.
    Target,
    /// The weight matrix of a transition.
    Weights(nat),
    /// The bias vector of a transition.
    Biases(nat),
    /// The matrix product of two values.
    Product(Box<Expr>, Box<Expr>),
    /// The sum of two values, entry by entry.
    Sum(Box<Expr>, Box<Expr>),
    /// The first value minus the second, entry by entry.
    Difference(Box<Expr>, Box<Expr>),
    /// The product of two values, entry by entry.
    Hadamard(Box<Expr>, Box<Expr>),
    /// The transposed value.
    Transposed(Box<Expr>),
    /// The sigmoid of a value, entry by entry.
    Sigmoid(Box<Expr>),
    /// The derivative of the sigmoid at a value, entry by entry.
    SigmoidPrime(Box<Expr>),
}

/// A value that a step has left behind: its shape and what it is.
pub struct Value {
    pub shape: Shape,
    pub expr: Expr,
}

/// The gradient of one transition as a step has left it behind: the value `b`
/// for the biases and the value `w` for the weights.
pub struct GradientValue {
    pub b: Value,
    pub w: Value,
}

/// One tensor operation of a pass. The values it works on are kept by whoever
/// carries the step out: a list of activations `a` that starts as the input
/// alone, a list of pre-activations `z`, the current error `delta`, the target
/// `y`, and a list of gradients. Indices count from zero. The sigmoid of `v` is
/// `1 / (1 + e^-v)`, taken entry by entry, and `sigmoid'(v)` is
/// `sigmoid(v) ⊙ (1 - sigmoid(v))`, where `⊙` multiplies entry by entry.
#[derive(Clone, Copy, Debug, PartialEq, Eq, Structural)]
pub enum Step {
    /// Append `weights[layer] · a[layer] + biases[layer]` to `z`, and its
    /// sigmoid to `a`.
    FeedForward { layer: usize },
    /// Set `delta` to `(a[activation] - y) ⊙ sigmoid'(z[z])`.
    OutputError { activation: usize, z: usize },
    /// Set `delta` to `(weights[weights]ᵀ · delta) ⊙ sigmoid'(z[z])`.
    PropagateError { weights: usize, z: usize },
    /// Append the gradient `(b: delta, w: delta · a[activation]ᵀ)`.
    Gradient { activation: usize },
    /// Reverse the list of gradients.
    Reverse,
}

/// The values that the steps of a pass have left behind.
#[verifier::ext_equal]
pub struct Registers {
    /// Shape of the target `y`.
    pub target: Shape,
    /// The activations `a`, the input first.
    pub activations: Seq<Value>,
    /// The pre-activations `z`.
    pub zs: Seq<Value>,
    /// The error `delta`, once there is one.
    pub delta: Option<Value>,
    /// The gradients, in the order in which the list holds them.
    pub nablas: Seq<GradientValue>,
}

impl Registers {
    /// The registers before the first step: the input is the only activation.
    pub open spec fn start(input: Shape, target: Shape) -> Registers {
        Registers {
            target,
            activations: seq![Value { shape: input, expr: Expr::Input }],
            zs: Seq::empty(),
            delta: None,
            nablas: Seq::empty(),
        }
    }

    /// The registers after `step`, or `None` where the step reads a value that
    /// is not there or combines values whose shapes do not fit.
    pub open spec fn after(self, sizes: Seq<usize>, step: Step) -> Option<Registers> {
        match step {
            Step::FeedForward { layer } => {
                if layer + 1 < sizes.len() && self.zs.len() == layer && self.activations.len()
                    == layer + 1 && weight_shape(sizes, layer as int).times(
                    self.activations[layer as int].shape,
                ) == Some(bias_shape(sizes, layer as int)) {
                    let z = Expr::Sum(
                        Box::new(
                            Expr::Product(
                                Box::new(Expr::Weights(layer as nat)),
                                Box::new(self.activations[layer as int].expr),
                            ),
                        ),
                        Box::new(Expr::Biases(layer as nat)),
                    );
                    Some(
                        Registers {
                            zs: self.zs.push(
                                Value { shape: bias_shape(sizes, layer as int), expr: z },
                            ),
                            activations: self.activations.push(
                                Value {
                                    shape: bias_shape(sizes, layer as int),
                                    expr: Expr::Sigmoid(Box::new(z)),
                                },
                            ),
                            ..self
                        },
                    )
                } else {
                    None
                }
            },
            Step::OutputError { activation, z } => {
                if activation < self.activations.len() && z < self.zs.len()
                    && self.activations[activation as int].shape == self.target
                    && self.zs[z as int].shape == self.target {
                    Some(
                        Registers {
                            delta: Some(
                                Value {
                                    shape: self.target,
                                    expr: Expr::Hadamard(
                                        Box::new(
                                            Expr::Difference(
                                                Box::new(self.activations[activation as int].expr),
                                                Box::new(Expr::Target),
                                            ),
                                        ),
                                        Box::new(
                                            Expr::SigmoidPrime(Box::new(self.zs[z as int].expr)),
                                        ),
                                    ),
                                },
                            ),
                            ..self
                        },
                    )
                } else {
                    None
                }
            },
            Step::PropagateError { weights, z } => {
                if self.delta.is_some() && weights + 1 < sizes.len() && z < self.zs.len()
                    && weight_shape(sizes, weights as int).transposed().times(
                    self.delta.unwrap().shape,
                ) == Some(self.zs[z as int].shape) {
                    Some(
                        Registers {
                            delta: Some(
                                Value {
                                    shape: self.zs[z as int].shape,
                                    expr: Expr::Hadamard(
                                        Box::new(
                                            Expr::Product(
                                                Box::new(
                                                    Expr::Transposed(
                                                        Box::new(Expr::Weights(weights as nat)),
                                                    ),
                                                ),
                                                Box::new(self.delta.unwrap().expr),
                                            ),
                                        ),
                                        Box::new(
                                            Expr::SigmoidPrime(Box::new(self.zs[z as int].expr)),
                                        ),
                                    ),
                                },
                            ),
                            ..self
                        },
                    )
                } else {
                    None
                }
            },
            Step::Gradient { activation } => {
                if self.delta.is_some() && activation < self.activations.len()
                    && self.delta.unwrap().shape.times(
                    self.activations[activation as int].shape.transposed(),
                ).is_some() {
                    Some(
                        Registers {
                            nablas: self.nablas.push(
                                GradientValue {
                                    b: self.delta.unwrap(),
                                    w: Value {
                                        shape: self.delta.unwrap().shape.times(
                                            self.activations[activation as int].shape.transposed(),
                                        ).unwrap(),
                                        expr: Expr::Product(
                                            Box::new(self.delta.unwrap().expr),
                                            Box::new(
                                                Expr::Transposed(
                                                    Box::new(
                                                        self.activations[activation as int].expr,
                                                    ),
                                                ),
                                            ),
                                        ),
                                    },
                                },
                            ),
                            ..self
                        },
                    )
                } else {
                    None
                }
            },
            Step::Reverse => Some(Registers { nablas: self.nablas.reverse(), ..self }),
        }
    }

    /// The registers after all of `steps`, carried out in order, or `None` where
    /// one of them cannot be carried out.
    pub open spec fn run(self, sizes: Seq<usize>, steps: Seq<Step>) -> Option<Registers>
        decreases steps.len(),
    {
        if steps.len() == 0 {
            Some(self)
        } else {
            match self.run(sizes, steps.drop_last()) {
                Some(before) => before.after(sizes, steps.last()),
                None => None,
            }
        }
    }
}

/// Carrying out `steps` and then `step` is carrying out `step` on what `steps`
/// left behind.
pub proof fn lemma_run_push(start: Registers, sizes: Seq<usize>, steps: Seq<Step>, step: Step)
    ensures
        start.run(sizes, steps.push(step)) == match start.run(sizes, steps) {
            Some(before) => before.after(sizes, step),
            None => None,
        },
{
    assert(steps.push(step).drop_last() =~= steps);
    assert(steps.push(step).last() == step);
}

} // verus!
