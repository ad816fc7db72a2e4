//! Mini-batches: the accumulator that gathers the gradients of one batch, the
//! steps that fill it and apply it, and the division of a data set into
//! batches.
use vstd::prelude::*;
use rand::rngs::ThreadRng;
use rand::seq::SliceRandom;
use crate::example::Example;
use crate::network::Network;
use crate::schedule::{Nabla, gradient_shapes, nabla_shape};

verus! {

/// The layout of the gradient accumulator: the batch length it was made for
/// and, for each transition, the shapes of the sums it holds.
#[derive(Debug)]
pub struct BatchWork {
    batch_length: usize,
    nablas: Vec<Nabla>,
}

/// One step of processing a mini-batch.
#[derive(Clone, Copy, Debug, PartialEq, Eq, Structural)]
pub enum BatchStep {
    /// Set every entry of the accumulator to zero.
    Reset,
    /// Compute the gradient of every example of the batch from `first` up to,
    /// but not including, `end` by backpropagation, each on its own, and keep
    /// them all. No gradient depends on another, so they may be computed side by
    /// side; the step is over when the last of them is there.
    Backprop { first: usize, end: usize },
    /// Add the gradient kept for example `example` to the accumulator, entry by
    /// entry, for every transition.
    Accumulate { example: usize },
}

/// One step of applying the accumulated gradients to the parameters. The rate
/// is the learning rate divided by the accumulator's batch length.
#[derive(Clone, Copy, Debug, PartialEq, Eq, Structural)]
pub enum UpdateStep {
    /// Subtract from the biases of transition `layer` the accumulated bias
    /// gradient of that transition, times the rate.
    Bias { layer: usize },
    /// Subtract from the weights of transition `layer` the accumulated weight
    /// gradient of that transition, times the rate.
    Weight { layer: usize },
}

/// The steps of processing a batch of `length` examples: the accumulator is
/// reset, then the gradient of every example is computed, then the gradients
/// are added up one after the other in the order of the examples.
pub open spec fn batch_steps(length: nat) -> Seq<BatchStep> {
    seq![BatchStep::Reset, BatchStep::Backprop { first: 0, end: length as usize }] + Seq::new(
        length,
        |example: int| BatchStep::Accumulate { example: example as usize },
    )
}

/// The steps of an update of a network with `transitions` transitions: all
/// biases, then all weights, each in the order of the transitions.
pub open spec fn update_steps(transitions: nat) -> Seq<UpdateStep> {
    Seq::new(transitions, |layer: int| UpdateStep::Bias { layer: layer as usize }) + Seq::new(
        transitions,
        |layer: int| UpdateStep::Weight { layer: layer as usize },
    )
}

/// The bounds of the batches that `examples` examples are cut into: as many
/// batches of `batch_size` consecutive examples as fit, each as the index of its
/// first example and the index after its last. What is left over at the end
/// belongs to no batch.
pub open spec fn batch_bounds(examples: nat, batch_size: nat) -> Seq<(usize, usize)> {
    Seq::new(
        examples / batch_size,
        |k: int| ((k * batch_size) as usize, (k * batch_size + batch_size) as usize),
    )
}

/// What the gradient accumulator and the store of kept gradients hold, told by
/// the examples that went into them.
#[verifier::ext_equal]
pub struct Ledger {
    /// The examples of the batch whose gradient is kept.
    pub kept: Set<int>,
    /// The examples whose gradients have been added to the accumulator since
    /// it was last all zero, in the order in which they were added.
    pub summed: Seq<int>,
}

impl Ledger {
    /// The ledger of a newly allocated accumulator: nothing kept, nothing
    /// added.
    pub open spec fn fresh() -> Ledger {
        Ledger { kept: Set::empty(), summed: Seq::empty() }
    }

    /// The ledger after `step`, or `None` where the step adds a gradient that
    /// is not kept.
    pub open spec fn after(self, step: BatchStep) -> Option<Ledger> {
        match step {
            BatchStep::Reset => Some(Ledger { summed: Seq::empty(), ..self }),
            BatchStep::Backprop { first, end } => Some(
                Ledger {
                    kept: self.kept.union(Set::new(|e: int| first <= e < end)),
                    ..self
                },
            ),
            BatchStep::Accumulate { example } => if self.kept.contains(example as int) {
                Some(Ledger { summed: self.summed.push(example as int), ..self })
            } else {
                None
            },
        }
    }

    /// The ledger after all of `steps`, carried out in order, or `None` where
    /// one of them cannot be carried out.
    pub open spec fn run(self, steps: Seq<BatchStep>) -> Option<Ledger>
        decreases steps.len(),
    {
        if steps.len() == 0 {
            Some(self)
        } else {
            match self.run(steps.drop_last()) {
                Some(before) => before.after(steps.last()),
                None => None,
            }
        }
    }
}

/// Carrying out `steps` and then `step` is carrying out `step` on what `steps`
/// left behind.
pub proof fn lemma_ledger_push(start: Ledger, steps: Seq<BatchStep>, step: BatchStep)
    ensures
        start.run(steps.push(step)) == match start.run(steps) {
            Some(before) => before.after(step),
            None => None,
        },
{
    assert(steps.push(step).drop_last() =~= steps);
    assert(steps.push(step).last() == step);
}

/// A reset leaves the accumulator as a newly allocated one is, with nothing
/// added to it, and a second reset changes nothing.
pub proof fn lemma_reset_is_idempotent(ledger: Ledger)
    ensures
        ledger.after(BatchStep::Reset).unwrap().summed == Ledger::fresh().summed,
        ledger.after(BatchStep::Reset).unwrap().after(BatchStep::Reset) == ledger.after(
            BatchStep::Reset,
        ),
{
}

/// After a batch of one example the accumulator holds the gradient of that
/// example and nothing else, whatever it held before.
pub proof fn lemma_batch_of_one(before: Ledger)
    ensures
        before.run(batch_steps(1)) == Some(
            Ledger { kept: before.kept.insert(0), summed: seq![0int] },
        ),
{
    let reset = seq![BatchStep::Reset];
    let kept = reset.push(BatchStep::Backprop { first: 0, end: 1 });
    lemma_ledger_push(before, Seq::empty(), BatchStep::Reset);
    lemma_ledger_push(before, reset, BatchStep::Backprop { first: 0, end: 1 });
    lemma_ledger_push(before, kept, BatchStep::Accumulate { example: 0 });
    assert(reset =~= Seq::<BatchStep>::empty().push(BatchStep::Reset));
    assert(batch_steps(1) =~= kept.push(BatchStep::Accumulate { example: 0 }));
    assert(before.kept.union(Set::new(|e: int| 0 <= e < 1)) =~= before.kept.insert(0));
    assert(before.run(batch_steps(1)).unwrap() =~= Ledger {
        kept: before.kept.insert(0),
        summed: seq![0int],
    });
}

/// The steps that add the kept gradients of the examples `order`, one after
/// the other.
pub open spec fn accumulate_steps(order: Seq<int>) -> Seq<BatchStep> {
    Seq::new(order.len(), |i: int| BatchStep::Accumulate { example: order[i] as usize })
}

/// Adding the kept gradients of the examples `order` appends exactly these
/// examples to what the accumulator holds.
pub proof fn lemma_accumulate_appends(start: Ledger, order: Seq<int>)
    requires
        forall|i: int|
            0 <= i < order.len() ==> 0 <= #[trigger] order[i] <= usize::MAX && start.kept.contains(
                order[i],
            ),
    ensures
        start.run(accumulate_steps(order)) == Some(
            Ledger { summed: start.summed + order, ..start },
        ),
    decreases order.len(),
{
    if order.len() == 0 {
        assert(start.summed + order =~= start.summed);
    } else {
        let last = BatchStep::Accumulate { example: order.last() as usize };
        lemma_accumulate_appends(start, order.drop_last());
        lemma_ledger_push(start, accumulate_steps(order.drop_last()), last);
        assert(accumulate_steps(order) =~= accumulate_steps(order.drop_last()).push(last));
        assert((start.summed + order.drop_last()).push(order.last()) =~= start.summed + order);
    }
}

/// In whatever order the kept gradients of a batch are added, the accumulator
/// holds the same gradients afterwards, each as often.
pub proof fn lemma_sum_ignores_order(start: Ledger, first: Seq<int>, second: Seq<int>)
    requires
        first.to_multiset() == second.to_multiset(),
        forall|i: int|
            0 <= i < first.len() ==> 0 <= #[trigger] first[i] <= usize::MAX && start.kept.contains(
                first[i],
            ),
    ensures
        start.run(accumulate_steps(first)).is_some(),
        start.run(accumulate_steps(second)).is_some(),
        start.run(accumulate_steps(first)).unwrap().summed.to_multiset() == start.run(
            accumulate_steps(second),
        ).unwrap().summed.to_multiset(),
{
    broadcast use vstd::seq_lib::group_to_multiset_ensures;

    assert forall|i: int| 0 <= i < second.len() implies 0 <= #[trigger] second[i] <= usize::MAX
        && start.kept.contains(second[i]) by {
        assert(second.to_multiset().count(second[i]) > 0);
        assert(first.to_multiset().count(second[i]) > 0);
        assert(first.contains(second[i]));
    }
    lemma_accumulate_appends(start, first);
    lemma_accumulate_appends(start, second);
    vstd::seq_lib::lemma_multiset_commutative(start.summed, first);
    vstd::seq_lib::lemma_multiset_commutative(start.summed, second);
}

impl BatchWork {
    /// The batch length that the accumulator was made for.
    pub closed spec fn length(&self) -> usize {
        self.batch_length
    }

    /// The shapes of the accumulated gradients, first transition first.
    pub closed spec fn shapes(&self) -> Seq<Nabla> {
        self.nablas@
    }

    /// The batch length that the accumulator was made for.
    pub fn batch_length(&self) -> (length: usize)
        ensures
            length == self.length(),
    {
        self.batch_length
    }

    /// The shapes of the accumulated gradients, first transition first.
    pub fn nablas(&self) -> (nablas: &Vec<Nabla>)
        ensures
            nablas@ == self.shapes(),
    {
        &self.nablas
    }
}

impl Network {
    /// The shapes of the network's parameters: for every transition those of
    /// its bias vector and of its weight matrix, first transition first.
    pub fn parameter_shapes(&self) -> (shapes: Vec<Nabla>)
        ensures
            shapes@ == gradient_shapes(self@),
    {
        let transitions = self.transitions();
        let mut shapes: Vec<Nabla> = Vec::new();
        for layer in 0..transitions
            invariant
                transitions + 1 == self@.len(),
                shapes@ =~= Seq::new(layer as nat, |t: int| nabla_shape(self@, t)),
        {
            let b = self.bias_shape(layer);
            let w = self.weight_shape(layer);
            shapes.push(Nabla { b, w });
        }
        shapes
    }

    /// The accumulator layout for batches of `batch_length` examples: for every
    /// transition a bias gradient and a weight gradient with the shapes of that
    /// transition's biases and weights.
    pub fn alloc_batch_work(&self, batch_length: usize) -> (work: BatchWork)
        ensures
            work.length() == batch_length,
            work.shapes() == gradient_shapes(self@),
    {
        BatchWork { batch_length, nablas: self.parameter_shapes() }
    }

    /// The steps that apply the gradients accumulated in `work` to the
    /// parameters of the network.
    pub fn update(&self, work: &BatchWork) -> (plan: Vec<UpdateStep>)
        requires
            work.shapes() == gradient_shapes(self@),
        ensures
            plan@ == update_steps((self@.len() - 1) as nat),
    {
        let transitions = self.transitions();
        let mut plan: Vec<UpdateStep> = Vec::new();
        for layer in 0..transitions
            invariant
                plan@ =~= Seq::new(
                    layer as nat,
                    |layer: int| UpdateStep::Bias { layer: layer as usize },
                ),
        {
            plan.push(UpdateStep::Bias { layer });
        }
        for layer in 0..transitions
            invariant
                plan@ =~= Seq::new(
                    transitions as nat,
                    |layer: int| UpdateStep::Bias { layer: layer as usize },
                ) + Seq::new(layer as nat, |layer: int| UpdateStep::Weight { layer: layer as usize }),
        {
            plan.push(UpdateStep::Weight { layer });
        }
        plan
    }

    /// The steps that gather in `work` the gradients of a batch of
    /// `batch_length` examples, which must be the length that `work` was made
    /// for. Whatever the accumulator held before, afterwards it holds the
    /// gradient of every example of the batch, each added once, in the order of
    /// the batch.
    pub fn process_mini_batch(&self, work: &BatchWork, batch_length: usize) -> (plan: Vec<
        BatchStep,
    >)
        requires
            work.length() == batch_length,
            work.shapes() == gradient_shapes(self@),
        ensures
            plan@ == batch_steps(batch_length as nat),
            forall|before: Ledger| #[trigger]
                before.run(plan@) == Some(
                    Ledger {
                        kept: before.kept.union(Set::new(|e: int| 0 <= e < batch_length)),
                        summed: Seq::new(batch_length as nat, |e: int| e),
                    },
                ),
    {
        let mut plan: Vec<BatchStep> = Vec::new();
        plan.push(BatchStep::Reset);
        plan.push(BatchStep::Backprop { first: 0, end: batch_length });
        assert forall|before: Ledger| #[trigger]
            before.run(plan@) == Some(
                Ledger {
                    kept: before.kept.union(Set::new(|e: int| 0 <= e < batch_length)),
                    summed: Seq::empty(),
                },
            ) by {
            let reset = Seq::<BatchStep>::empty().push(BatchStep::Reset);
            lemma_ledger_push(before, Seq::empty(), BatchStep::Reset);
            lemma_ledger_push(before, reset, BatchStep::Backprop { first: 0, end: batch_length });
            assert(plan@ =~= reset.push(BatchStep::Backprop { first: 0, end: batch_length }));
        }
        for example in 0..batch_length
            invariant
                plan@ =~= seq![
                    BatchStep::Reset,
                    BatchStep::Backprop { first: 0, end: batch_length },
                ] + Seq::new(
                    example as nat,
                    |example: int| BatchStep::Accumulate { example: example as usize },
                ),
                forall|before: Ledger| #[trigger]
                    before.run(plan@) == Some(
                        Ledger {
                            kept: before.kept.union(Set::new(|e: int| 0 <= e < batch_length)),
                            summed: Seq::new(example as nat, |e: int| e),
                        },
                    ),
        {
            assert forall|before: Ledger| #[trigger]
                before.run(plan@.push(BatchStep::Accumulate { example })) == Some(
                    Ledger {
                        kept: before.kept.union(Set::new(|e: int| 0 <= e < batch_length)),
                        summed: Seq::new((example + 1) as nat, |e: int| e),
                    },
                ) by {
                lemma_ledger_push(before, plan@, BatchStep::Accumulate { example });
                assert(before.run(plan@).is_some());
                assert(Set::new(|e: int| 0 <= e < batch_length).contains(example as int));
                assert(Seq::new(example as nat, |e: int| e).push(example as int) =~= Seq::new(
                    (example + 1) as nat,
                    |e: int| e,
                ));
            }
            plan.push(BatchStep::Accumulate { example });
        }
        plan
    }
}

/// The bounds of the batches of `batch_size` examples that a data set of
/// `examples` examples is cut into.
pub fn batches(examples: usize, batch_size: usize) -> (bounds: Vec<(usize, usize)>)
    requires
        batch_size > 0,
    ensures
        bounds@ == batch_bounds(examples as nat, batch_size as nat),
        forall|k: int|
            0 <= k < bounds@.len() ==> (#[trigger] bounds@[k]).0 + batch_size == bounds@[k].1
                && bounds@[k].1 <= examples,
{
    let full: usize = examples / batch_size;
    let mut bounds: Vec<(usize, usize)> = Vec::new();
    let mut start: usize = 0;
    assert(full * batch_size <= examples && 0 * batch_size == 0) by (nonlinear_arith)
        requires
            full == examples / batch_size,
            batch_size > 0,
    ;
    for k in 0..full
        invariant
            full * batch_size <= examples,
            start == k * batch_size,
            bounds@ =~= Seq::new(
                k as nat,
                |k: int| ((k * batch_size) as usize, (k * batch_size + batch_size) as usize),
            ),
            forall|j: int|
                0 <= j < bounds@.len() ==> (#[trigger] bounds@[j]).0 + batch_size == bounds@[j].1
                    && bounds@[j].1 <= examples,
    {
        assert(k * batch_size + batch_size <= full * batch_size && (k + 1) * batch_size == k
            * batch_size + batch_size) by (nonlinear_arith)
            requires
                k < full,
        ;
        bounds.push((start, start + batch_size));
        start = start + batch_size;
    }
    bounds
}

#[verifier::external_type_specification]
#[verifier::external_body]
pub struct ExThreadRng(ThreadRng);

/// `rand::seq::SliceRandom::shuffle` on the examples. That function walks the
/// slice from the back and swaps each element with one at a random position not
/// behind it, so the slice holds the same elements afterwards, in some order.
#[verifier::external_body]
fn shuffle(data: &mut Vec<Example>, rng: &mut ThreadRng)
    ensures
        final(data)@.to_multiset() == old(data)@.to_multiset(),
{
    data.shuffle(rng);
}

/// Opens an epoch: brings the examples into a random order and cuts them into
/// batches of `batch_size`. The data set holds the same examples afterwards.
pub fn next_epoch(data: &mut Vec<Example>, rng: &mut ThreadRng, batch_size: usize) -> (bounds: Vec<
    (usize, usize),
>)
    requires
        batch_size > 0,
    ensures
        final(data)@.to_multiset() == old(data)@.to_multiset(),
        final(data)@.len() == old(data)@.len(),
        bounds@ == batch_bounds(old(data)@.len(), batch_size as nat),
        forall|k: int|
            0 <= k < bounds@.len() ==> (#[trigger] bounds@[k]).0 + batch_size == bounds@[k].1
                && bounds@[k].1 <= final(data)@.len(),
{
    shuffle(data, rng);
    proof {
        old(data)@.to_multiset_ensures();
        data@.to_multiset_ensures();
    }
    batches(data.len(), batch_size)
}

} // verus!
