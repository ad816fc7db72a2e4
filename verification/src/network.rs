//! The network's topology and the shapes of its parameters.
use vstd::prelude::*;
use crate::shape::Shape;
use crate::schedule::{weight_shape, bias_shape};

verus! {

/// Layer sizes make a network when there are at least two layers and none of
/// them is empty.
pub open spec fn valid_topology(sizes: Seq<usize>) -> bool {
    &&& sizes.len() >= 2
    &&& forall|i: int| 0 <= i < sizes.len() ==> #[trigger] sizes[i] > 0
}

/// A fully connected feed-forward network, described by the sizes of its layers.
#[derive(Debug)]
pub struct Network {
    /// Number of layers in the network.
    num_layers: usize,
    /// Number of neurons in each respective layer.
    layer_sizes: Vec<usize>,
}

impl View for Network {
    type V = Seq<usize>;

    /// The sizes of the layers, input layer first.
    closed spec fn view(&self) -> Seq<usize> {
        self.layer_sizes@
    }
}

impl Network {
    #[verifier::type_invariant]
    spec fn well_formed(&self) -> bool {
        &&& self.num_layers == self.layer_sizes@.len()
        &&& valid_topology(self.layer_sizes@)
    }

    /// Whether `layer_sizes` describes a network.
    pub fn valid_layer_sizes(layer_sizes: &Vec<usize>) -> (valid: bool)
        ensures
            valid == valid_topology(layer_sizes@),
    {
        if layer_sizes.len() < 2 {
            return false;
        }
        let mut i: usize = 0;
        while i < layer_sizes.len()
            invariant
                i <= layer_sizes.len(),
                forall|j: int| 0 <= j < i ==> #[trigger] layer_sizes@[j] > 0,
            decreases layer_sizes.len() - i,
        {
            if layer_sizes[i] == 0 {
                return false;
            }
            i += 1;
        }
        true
    }

    /// The network with the given layer sizes.
    pub fn new(layer_sizes: Vec<usize>) -> (net: Network)
        requires
            valid_topology(layer_sizes@),
        ensures
            net@ == layer_sizes@,
    {
        Network { num_layers: layer_sizes.len(), layer_sizes }
    }

    /// Number of layers, the input layer included.
    pub fn num_layers(&self) -> (n: usize)
        ensures
            n == self@.len(),
            valid_topology(self@),
    {
        proof {
            use_type_invariant(self);
        }
        self.num_layers
    }

    /// Number of layer transitions: one less than the number of layers.
    pub fn transitions(&self) -> (n: usize)
        ensures
            n + 1 == self@.len(),
            valid_topology(self@),
    {
        proof {
            use_type_invariant(self);
        }
        self.num_layers - 1
    }

    /// The sizes of the layers, input layer first.
    pub fn layer_sizes(&self) -> (sizes: &Vec<usize>)
        ensures
            sizes@ == self@,
            valid_topology(self@),
    {
        proof {
            use_type_invariant(self);
        }
        &self.layer_sizes
    }

    /// Shape of the weight matrix of transition `layer`: one row for each neuron
    /// of the layer it leads to, one column for each neuron of the layer it
    /// comes from.
    pub fn weight_shape(&self, layer: usize) -> (shape: Shape)
        requires
            layer + 1 < self@.len(),
        ensures
            shape == weight_shape(self@, layer as int),
    {
        assert(self@.len() == self.layer_sizes.len());
        Shape { rows: self.layer_sizes[layer + 1], cols: self.layer_sizes[layer] }
    }

    /// Shape of the bias vector of transition `layer`: a column with one entry
    /// for each neuron of the layer it leads to.
    pub fn bias_shape(&self, layer: usize) -> (shape: Shape)
        requires
            layer + 1 < self@.len(),
        ensures
            shape == bias_shape(self@, layer as int),
    {
        assert(self@.len() == self.layer_sizes.len());
        Shape::column(self.layer_sizes[layer + 1])
    }
}

impl Default for Network {
    /// A small network of three layers with 5, 7 and 3 neurons.
    fn default() -> (net: Network)
        ensures
            net@ == seq![5usize, 7usize, 3usize],
    {
        let mut layer_sizes: Vec<usize> = Vec::new();
        layer_sizes.push(5);
        layer_sizes.push(7);
        layer_sizes.push(3);
        assert(layer_sizes@ =~= seq![5usize, 7usize, 3usize]);
        Network::new(layer_sizes)
    }
}

} // verus!
