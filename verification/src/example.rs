//! Training examples in the form in which the data set stores them: bytes of
//! intensity and a class index.
use vstd::prelude::*;
use crate::mnist::MnistImage;

verus! {

/// Number of pixels of a digit image, and so of neurons in the input layer of a
/// network that reads one.
pub const INPUT_SIZE: usize = 784;

/// Number of digit classes, and so of neurons in the output layer.
pub const CLASS_COUNT: usize = 10;

/// The vector of `len` entries that is 1 at `class` and 0 everywhere else.
pub open spec fn one_hot(len: nat, class: int) -> Seq<u8> {
    Seq::new(len, |i: int| if i == class { 1u8 } else { 0u8 })
}

/// What an example holds.
pub struct ExampleView {
    /// The input, one intensity for each input neuron; 255 stands for 1.
    pub x: Seq<u8>,
    /// The target, one entry for each output neuron.
    pub y: Seq<u8>,
    /// The index at which the target is 1.
    pub class: usize,
}

/// One training sample: an input vector and the one-hot target that names its
/// class.
#[derive(Debug)]
pub struct Example {
    x: Vec<u8>,
    y: Vec<u8>,
    class: usize,
}

impl View for Example {
    type V = ExampleView;

    closed spec fn view(&self) -> ExampleView {
        ExampleView { x: self.x@, y: self.y@, class: self.class }
    }
}

impl Example {
    #[verifier::type_invariant]
    spec fn well_formed(&self) -> bool {
        &&& self.class < self.y@.len()
        &&& self.y@ == one_hot(self.y@.len(), self.class as int)
    }

    /// The example with the input `x` that belongs to class `class` out of
    /// `classes`.
    pub fn new(x: Vec<u8>, class: usize, classes: usize) -> (example: Example)
        requires
            class < classes,
        ensures
            example@ == (ExampleView { x: x@, y: one_hot(classes as nat, class as int), class }),
    {
        let mut y: Vec<u8> = Vec::new();
        for i in 0..classes
            invariant
                y@ =~= one_hot(i as nat, class as int),
        {
            y.push(if i == class { 1 } else { 0 });
        }
        Example { x, y, class }
    }

    /// Whether `image` can become an example: it has one pixel for each input
    /// neuron and shows one of the digit classes.
    pub fn accepts(image: &MnistImage) -> (yes: bool)
        ensures
            yes == (image@.0.len() == INPUT_SIZE && image@.1 < CLASS_COUNT),
    {
        image.image.len() == INPUT_SIZE && (image.classification as usize) < CLASS_COUNT
    }

    /// The example that a digit image stands for: its pixels as input, its digit
    /// as class, and a target with one entry for each digit.
    pub fn from(value: MnistImage) -> (example: Example)
        requires
            value@.0.len() == INPUT_SIZE,
            value@.1 < CLASS_COUNT,
        ensures
            example@ == (ExampleView {
                x: value@.0,
                y: one_hot(CLASS_COUNT as nat, value@.1 as int),
                class: value@.1 as usize,
            }),
    {
        Example::new(value.image, value.classification as usize, CLASS_COUNT)
    }

    /// The input vector.
    pub fn x(&self) -> (x: &Vec<u8>)
        ensures
            x@ == self@.x,
    {
        &self.x
    }

    /// The target vector, which is 1 at the example's class and 0 elsewhere.
    pub fn y(&self) -> (y: &Vec<u8>)
        ensures
            y@ == self@.y,
            self@.class < y@.len(),
            y@ == one_hot(y@.len(), self@.class as int),
    {
        proof {
            use_type_invariant(self);
        }
        &self.y
    }

    /// The index of the example's class.
    pub fn class(&self) -> (class: usize)
        ensures
            class == self@.class,
            class < self@.y.len(),
    {
        proof {
            use_type_invariant(self);
        }
        self.class
    }
}

} // verus!
