//! The topology builder: an ordered sequence of layers folded over an input
//! shape, checked incrementally, and frozen into an immutable
//! `NetworkTopology` once finished.

use vstd::prelude::*;
use crate::errors::TopologyError;
use crate::infer::{infer, spec_infer};
use crate::layer::LayerSpec;
use crate::shape::Shape;

verus! {

/// One build step: what the builder does when a layer is appended onto the
/// current trailing shape. Immediately before the first fully-connected
/// layer an image volume is flattened, exactly once; every other layer is
/// handed the trailing shape as it stands.
pub open spec fn spec_step(cur: Shape, layer: LayerSpec) -> Result<Shape, TopologyError> {
    match (cur, layer) {
        (Shape::Image { channels, height, width }, LayerSpec::FullyConnected { .. }) => {
            if cur.spec_flat_len() <= usize::MAX {
                spec_infer(Shape::Flat { features: cur.spec_flat_len() as usize }, layer)
            } else {
                Err(TopologyError::IncompatibleShape)
            }
        },
        _ => spec_infer(cur, layer),
    }
}

/// The fold of a whole layer sequence over an input shape: the trailing
/// shape if every step succeeds, the first failing step's error otherwise.
pub open spec fn chain(cur: Shape, layers: Seq<LayerSpec>) -> Result<Shape, TopologyError>
    decreases layers.len(),
{
    if layers.len() == 0 {
        Ok(cur)
    } else {
        match spec_step(cur, layers[0]) {
            Ok(next) => chain(next, layers.skip(1)),
            Err(e) => Err(e),
        }
    }
}

/// Folding a concatenation folds the first part, then the second from
/// wherever the first one ended; an error in the first part is final.
pub proof fn lemma_chain_append(cur: Shape, a: Seq<LayerSpec>, b: Seq<LayerSpec>)
    ensures
        chain(cur, a + b) == (match chain(cur, a) {
            Ok(s) => chain(s, b),
            Err(e) => Err::<Shape, TopologyError>(e),
        }),
    decreases a.len(),
{
    if a.len() == 0 {
        assert(a + b =~= b);
    } else {
        assert((a + b)[0] == a[0]);
        assert((a + b).skip(1) =~= a.skip(1) + b);
        match spec_step(cur, a[0]) {
            Ok(next) => {
                lemma_chain_append(next, a.skip(1), b);
            },
            Err(e) => {},
        }
    }
}

/// The moment one layer's step fails, the whole sequence fails with that
/// layer's error, whatever follows it: no later layer is ever reached.
pub proof fn lemma_first_failure_decides(input: Shape, layers: Seq<LayerSpec>, k: int)
    requires
        0 <= k < layers.len(),
        chain(input, layers.take(k)) matches Ok(s) && spec_step(s, layers[k]) matches Err(_),
    ensures
        chain(input, layers) is Err,
        chain(input, layers)->Err_0 == spec_step(
            chain(input, layers.take(k))->Ok_0,
            layers[k],
        )->Err_0,
{
    let s = chain(input, layers.take(k))->Ok_0;
    let e = spec_step(s, layers[k])->Err_0;
    assert(layers =~= layers.take(k) + (seq![layers[k]] + layers.skip(k + 1)));
    lemma_chain_append(input, layers.take(k), seq![layers[k]] + layers.skip(k + 1));
    assert((seq![layers[k]] + layers.skip(k + 1))[0] == layers[k]);
    assert(chain(s, seq![layers[k]] + layers.skip(k + 1)) == Err::<Shape, TopologyError>(e));
}

/// The shape flowing into position `i` of a recorded sequence: the input
/// shape at the front, the previous recorded output after that.
pub open spec fn shape_before(input: Shape, pairs: Seq<(LayerSpec, Shape)>, i: int) -> Shape {
    if i == 0 {
        input
    } else {
        pairs[i - 1].1
    }
}

/// The recorded output at position `i` is what `spec_step` produces from
/// the shape flowing into that position.
pub open spec fn step_recorded(input: Shape, pairs: Seq<(LayerSpec, Shape)>, i: int) -> bool {
    spec_step(shape_before(input, pairs, i), pairs[i].0) == Ok::<Shape, TopologyError>(pairs[i].1)
}

/// Pointwise consistency of a recorded (layer, output shape) sequence with
/// the input shape: every recorded output is what `spec_step` produces from
/// the shape before it.
pub open spec fn shapes_consistent(input: Shape, pairs: Seq<(LayerSpec, Shape)>) -> bool {
    forall|i: int| 0 <= i < pairs.len() ==> #[trigger] step_recorded(input, pairs, i)
}

/// A finished, validated topology: the declared input shape, the declared
/// batch size, and each layer with its inferred output shape. Immutable
/// once finalized; its accessors expose it read-only.
pub struct NetworkTopology {
    input: Shape,
    batch_size: usize,
    layers: Vec<(LayerSpec, Shape)>,
}

impl NetworkTopology {
    /// The declared input shape.
    pub closed spec fn spec_input(self) -> Shape {
        self.input
    }

    /// The declared batch size.
    pub closed spec fn spec_batch_size(self) -> usize {
        self.batch_size
    }

    /// The layers and their inferred output shapes, in order.
    pub closed spec fn spec_layers(self) -> Seq<(LayerSpec, Shape)> {
        self.layers@
    }

    /// A finalized topology is internally consistent: valid input, positive
    /// batch size, at least one layer, every recorded shape inferred from
    /// its predecessor.
    pub open spec fn wf(self) -> bool {
        &&& self.spec_input().valid()
        &&& self.spec_batch_size() >= 1
        &&& self.spec_layers().len() >= 1
        &&& shapes_consistent(self.spec_input(), self.spec_layers())
    }

    pub fn input(&self) -> (s: Shape)
        ensures
            s == self.spec_input(),
    {
        self.input
    }

    pub fn batch_size(&self) -> (b: usize)
        ensures
            b == self.spec_batch_size(),
    {
        self.batch_size
    }

    pub fn len(&self) -> (n: usize)
        ensures
            n == self.spec_layers().len(),
    {
        self.layers.len()
    }

    /// The layer at one position together with its inferred output shape.
    pub fn layer_at(&self, i: usize) -> (p: (LayerSpec, Shape))
        requires
            i < self.spec_layers().len(),
        ensures
            p == self.spec_layers()[i as int],
    {
        self.layers[i]
    }

    /// The shape flowing out of the last layer.
    pub fn output(&self) -> (s: Shape)
        requires
            self.spec_layers().len() >= 1,
        ensures
            s == self.spec_layers().last().1,
    {
        self.layers[self.layers.len() - 1].1
    }
}

/// Accumulates an input shape and an ordered layer sequence, inferring each
/// appended layer's output shape immediately and failing fast: an
/// incompatible layer is rejected the moment it is appended and leaves the
/// builder exactly as it was.
pub struct NetworkSpecBuilder {
    input: Option<Shape>,
    batch_size: usize,
    layers: Vec<(LayerSpec, Shape)>,
}

impl NetworkSpecBuilder {
    pub closed spec fn spec_input(self) -> Option<Shape> {
        self.input
    }

    pub closed spec fn spec_batch_size(self) -> usize {
        self.batch_size
    }

    pub closed spec fn spec_layers(self) -> Seq<(LayerSpec, Shape)> {
        self.layers@
    }

    /// The builder's invariant, established by `new` and preserved by every
    /// method: a positive batch size, a valid input once set, layers only
    /// after an input, and every recorded shape inferred from its
    /// predecessor.
    pub open spec fn wf(self) -> bool {
        &&& self.spec_batch_size() >= 1
        &&& match self.spec_input() {
            Some(inp) => inp.valid() && shapes_consistent(inp, self.spec_layers()),
            None => self.spec_layers().len() == 0,
        }
    }

    /// The shape the next appended layer will be handed (before any
    /// implicit flattening): the last recorded output, or the input shape
    /// while no layer has been added.
    pub open spec fn trailing_shape(self) -> Shape
        recommends
            self.spec_input() is Some,
    {
        if self.spec_layers().len() == 0 {
            self.spec_input()->0
        } else {
            self.spec_layers().last().1
        }
    }

    /// A fresh builder with the given batch size, or the customary default
    /// of 16 when none is given.
    pub fn new(batch_size: Option<usize>) -> (b: NetworkSpecBuilder)
        requires
            batch_size matches Some(n) ==> n >= 1,
        ensures
            b.wf(),
            b.spec_input() is None,
            b.spec_layers().len() == 0,
            b.spec_batch_size() == (match batch_size {
                Some(n) => n,
                None => 16usize,
            }),
    {
        let n: usize = match batch_size {
            Some(n) => n,
            None => 16,
        };
        NetworkSpecBuilder { input: None, batch_size: n, layers: Vec::new() }
    }

    /// Declares the input shape. Rejects an invalid shape with
    /// `InvalidLayerParameter`, and a change of input under an existing
    /// layer stack with `IncompatibleShape`; on either error the builder is
    /// unchanged.
    pub fn set_input(&mut self, shape: Shape) -> (r: Result<(), TopologyError>)
        requires
            old(self).wf(),
        ensures
            final(self).wf(),
            final(self).spec_batch_size() == old(self).spec_batch_size(),
            if !shape.valid() {
                r == Err::<(), TopologyError>(TopologyError::InvalidLayerParameter)
                    && *final(self) == *old(self)
            } else if old(self).spec_layers().len() != 0 {
                r == Err::<(), TopologyError>(TopologyError::IncompatibleShape)
                    && *final(self) == *old(self)
            } else {
                r == Ok::<(), TopologyError>(())
                    && final(self).spec_input() == Some(shape)
                    && final(self).spec_layers().len() == 0
            },
    {
        if !shape.is_valid() {
            Err(TopologyError::InvalidLayerParameter)
        } else if self.layers.len() != 0 {
            Err(TopologyError::IncompatibleShape)
        } else {
            self.input = Some(shape);
            Ok(())
        }
    }

    /// Appends one layer, inferring its output shape from the current
    /// trailing shape (flattening first where `spec_step` says so). The
    /// first incompatible layer fails with `spec_step`'s error —
    /// `InvalidLayerParameter` or `IncompatibleShape` — and leaves the
    /// builder exactly as it was, so nothing after it is ever processed;
    /// appending before any input shape is set fails with `EmptyTopology`.
    pub fn add_layer(&mut self, layer: LayerSpec) -> (r: Result<(), TopologyError>)
        requires
            old(self).wf(),
        ensures
            final(self).wf(),
            final(self).spec_batch_size() == old(self).spec_batch_size(),
            final(self).spec_input() == old(self).spec_input(),
            match old(self).spec_input() {
                None => r == Err::<(), TopologyError>(TopologyError::EmptyTopology)
                    && *final(self) == *old(self),
                Some(_) => match spec_step(old(self).trailing_shape(), layer) {
                    Ok(s) => r == Ok::<(), TopologyError>(())
                        && final(self).spec_layers() == old(self).spec_layers().push((layer, s)),
                    Err(e) => r == Err::<(), TopologyError>(e)
                        && *final(self) == *old(self),
                },
            },
    {
        let cur: Shape = match &self.input {
            None => {
                return Err(TopologyError::EmptyTopology);
            },
            Some(inp) => {
                if self.layers.len() == 0 {
                    *inp
                } else {
                    self.layers[self.layers.len() - 1].1
                }
            },
        };
        let stepped: Shape = match (&cur, &layer) {
            (Shape::Image { .. }, LayerSpec::FullyConnected { .. }) => {
                match cur.flatten() {
                    Ok(flat) => flat,
                    Err(e) => {
                        return Err(e);
                    },
                }
            },
            _ => cur,
        };
        match infer(&stepped, &layer) {
            Ok(out) => {
                self.layers.push((layer, out));
                proof {
                    let inp = old(self).spec_input()->0;
                    let oldp = old(self).spec_layers();
                    let newp = self.spec_layers();
                    assert(spec_step(old(self).trailing_shape(), layer) == Ok::<
                        Shape,
                        TopologyError,
                    >(out));
                    assert(newp =~= oldp.push((layer, out)));
                    assert forall|i: int| 0 <= i < newp.len() implies #[trigger] step_recorded(
                        inp,
                        newp,
                        i,
                    ) by {
                        if i < oldp.len() {
                            assert(step_recorded(inp, oldp, i));
                            assert(newp[i] == oldp[i]);
                        } else {
                            assert(newp[i] == (layer, out));
                            assert(shape_before(inp, newp, i) == old(self).trailing_shape());
                        }
                    }
                }
                Ok(())
            },
            Err(e) => Err(e),
        }
    }

    /// Freezes the builder into an immutable topology. Fails with
    /// `EmptyTopology` when no input shape was set or no layer was added;
    /// otherwise the topology carries the input, batch size and layer
    /// sequence exactly as accumulated.
    pub fn finalize(self) -> (r: Result<NetworkTopology, TopologyError>)
        requires
            self.wf(),
        ensures
            match self.spec_input() {
                None => r == Err::<NetworkTopology, TopologyError>(TopologyError::EmptyTopology),
                Some(inp) => {
                    if self.spec_layers().len() == 0 {
                        r == Err::<NetworkTopology, TopologyError>(TopologyError::EmptyTopology)
                    } else {
                        r matches Ok(t)
                            && t.spec_input() == inp
                            && t.spec_batch_size() == self.spec_batch_size()
                            && t.spec_layers() == self.spec_layers()
                            && t.wf()
                    }
                },
            },
    {
        match self.input {
            None => Err(TopologyError::EmptyTopology),
            Some(inp) => {
                if self.layers.len() == 0 {
                    Err(TopologyError::EmptyTopology)
                } else {
                    Ok(NetworkTopology {
                        input: inp,
                        batch_size: self.batch_size,
                        layers: self.layers,
                    })
                }
            },
        }
    }
}

/// Builds and finalizes a topology from an input shape and a layer
/// sequence in one pass. Succeeds exactly when the input is valid, the
/// sequence is non-empty and every step of `chain` succeeds; the first
/// failing step's error is returned, and an invalid input is rejected as
/// `InvalidLayerParameter` before any layer is looked at.
#[verifier::rlimit(60)]
pub fn build_network(input: Shape, layers: &Vec<LayerSpec>, batch_size: usize) -> (r: Result<
    NetworkTopology,
    TopologyError,
>)
    requires
        batch_size >= 1,
    ensures
        match r {
            Ok(t) => {
                &&& input.valid()
                &&& layers@.len() >= 1
                &&& chain(input, layers@) matches Ok(s) && t.spec_layers().last().1 == s
                &&& t.wf()
                &&& t.spec_input() == input
                &&& t.spec_batch_size() == batch_size
                &&& t.spec_layers().len() == layers@.len()
                &&& forall|i: int| 0 <= i < layers@.len()
                    ==> (#[trigger] t.spec_layers()[i]).0 == layers@[i]
            },
            Err(e) => {
                if !input.valid() {
                    e == TopologyError::InvalidLayerParameter
                } else if chain(input, layers@) is Err {
                    e == chain(input, layers@)->Err_0
                } else {
                    layers@.len() == 0 && e == TopologyError::EmptyTopology
                }
            },
        },
{
    let mut builder = NetworkSpecBuilder::new(Some(batch_size));
    match builder.set_input(input) {
        Err(e) => {
            return Err(e);
        },
        Ok(()) => {},
    }
    let ghost all = layers@;
    let mut i: usize = 0;
    while i < layers.len()
        invariant
            i <= layers@.len(),
            layers@ == all,
            batch_size >= 1,
            input.valid(),
            builder.wf(),
            builder.spec_input() == Some(input),
            builder.spec_batch_size() == batch_size,
            builder.spec_layers().len() == i,
            forall|j: int| 0 <= j < i ==> (#[trigger] builder.spec_layers()[j]).0 == layers@[j],
            chain(input, layers@.take(i as int)) == Ok::<Shape, TopologyError>(
                builder.trailing_shape(),
            ),
        decreases layers@.len() - i,
    {
        let layer = layers[i];
        let ghost before = builder.trailing_shape();
        match builder.add_layer(layer) {
            Ok(()) => {
                proof {
                    let step = seq![all[i as int]];
                    let s = spec_step(before, all[i as int])->Ok_0;
                    assert(builder.trailing_shape() == s);
                    assert(chain(s, step.skip(1)) == Ok::<Shape, TopologyError>(s)) by {
                        assert(step.skip(1) =~= Seq::<LayerSpec>::empty());
                    }
                    assert(chain(before, step) == Ok::<Shape, TopologyError>(s));
                    lemma_chain_append(input, all.take(i as int), step);
                    assert(all.take(i as int) + step =~= all.take(i + 1));
                }
                i = i + 1;
            },
            Err(e) => {
                proof {
                    lemma_first_failure_decides(input, all, i as int);
                    assert(chain(input, all) == Err::<Shape, TopologyError>(e));
                }
                return Err(e);
            },
        }
    }
    proof {
        assert(all.take(all.len() as int) =~= all);
    }
    builder.finalize()
}

} // verus!
