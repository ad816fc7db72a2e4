//! Planning core of a dense sigmoid network trained by mini-batch gradient
//! descent.
//!
//! The crate decides everything about training that can be decided without
//! touching a number: which layer sizes make a network, what shape every weight
//! matrix, bias vector and gradient has, in which order the tensor operations of a
//! forward pass, a backward pass, a mini-batch and a parameter update run and
//! which operands each of them reads, how a data set is cut into batches, and how
//! the IDX files of a digit data set are decoded. It proves that the operations
//! it schedules fit together in shape and that, as formulas over the input, the
//! target and the parameters, they are the network's output and the gradients of
//! the quadratic cost. The numeric kernels themselves (matrix products, the
//! sigmoid, random initialisation) belong to the embedding program, which carries
//! out the steps that this crate hands it.
pub mod shape;
pub mod network;
pub mod schedule;
pub mod pass;
pub mod batch;
pub mod mnist;
pub mod example;
