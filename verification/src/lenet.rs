//! The LeNet topology: three convolution stages with interleaved
//! max-pooling over a single-channel input, flattened into two
//! fully-connected stages.

use vstd::prelude::*;
use crate::errors::TopologyError;
use crate::layer::{LayerSpec, PoolingMode};
use crate::shape::Shape;
use crate::topology::{build_network, chain, NetworkTopology};

verus! {

/// The fixed LeNet layer sequence.
pub open spec fn lenet_layers() -> Seq<LayerSpec> {
    seq![
        LayerSpec::Convolution { output_channels: 6, kernel_size: 5, padding: 0, stride: 1 },
        LayerSpec::Pooling { mode: PoolingMode::Max, kernel_size: 2, padding: 0, stride: 2 },
        LayerSpec::Convolution { output_channels: 16, kernel_size: 5, padding: 0, stride: 1 },
        LayerSpec::Pooling { mode: PoolingMode::Max, kernel_size: 2, padding: 0, stride: 2 },
        LayerSpec::Convolution { output_channels: 120, kernel_size: 5, padding: 0, stride: 1 },
        LayerSpec::FullyConnected { output_size: 84 },
        LayerSpec::FullyConnected { output_size: 10 },
    ]
}

/// A LeNet network description: the validated topology for a
/// single-channel input of the given spatial extents, with the declared
/// batch size.
pub struct LeNet {
    batch_size: usize,
    input_width: usize,
    input_height: usize,
    network: NetworkTopology,
}

impl LeNet {
    pub closed spec fn spec_batch_size(self) -> usize {
        self.batch_size
    }

    pub closed spec fn spec_input_width(self) -> usize {
        self.input_width
    }

    pub closed spec fn spec_input_height(self) -> usize {
        self.input_height
    }

    pub closed spec fn spec_network(self) -> NetworkTopology {
        self.network
    }

    /// Builds the LeNet topology over a single-channel input of the given
    /// extents, with the given batch size or the default of 16. Succeeds
    /// exactly when both extents are positive and every layer of the fixed
    /// sequence infers a positive shape from its predecessor; the first
    /// failing layer's error is returned.
    pub fn new(input_width: usize, input_height: usize, options: Option<usize>) -> (r: Result<
        LeNet,
        TopologyError,
    >)
        requires
            options matches Some(n) ==> n >= 1,
        ensures
            match r {
                Ok(net) => {
                    &&& input_width >= 1 && input_height >= 1
                    &&& chain(
                        Shape::Image { channels: 1, height: input_height, width: input_width },
                        lenet_layers(),
                    ) matches Ok(s) && net.spec_network().spec_layers().last().1 == s
                    &&& net.spec_network().wf()
                    &&& net.spec_network().spec_input() == (Shape::Image {
                        channels: 1,
                        height: input_height,
                        width: input_width,
                    })
                    &&& net.spec_network().spec_layers().len() == lenet_layers().len()
                    &&& (forall|i: int| 0 <= i < lenet_layers().len()
                        ==> (#[trigger] net.spec_network().spec_layers()[i]).0
                            == lenet_layers()[i])
                    &&& net.spec_input_width() == input_width
                    &&& net.spec_input_height() == input_height
                    &&& net.spec_batch_size() == (match options {
                        Some(n) => n,
                        None => 16usize,
                    })
                    &&& net.spec_network().spec_batch_size() == net.spec_batch_size()
                },
                Err(e) => {
                    if input_width == 0 || input_height == 0 {
                        e == TopologyError::InvalidLayerParameter
                    } else {
                        chain(
                            Shape::Image { channels: 1, height: input_height, width: input_width },
                            lenet_layers(),
                        ) == Err::<Shape, TopologyError>(e)
                    }
                },
            },
    {
        let batch_size: usize = match options {
            Some(n) => n,
            None => 16,
        };
        let mut layers: Vec<LayerSpec> = Vec::new();
        layers.push(LayerSpec::Convolution { output_channels: 6, kernel_size: 5, padding: 0, stride: 1 });
        layers.push(LayerSpec::Pooling { mode: PoolingMode::Max, kernel_size: 2, padding: 0, stride: 2 });
        layers.push(LayerSpec::Convolution { output_channels: 16, kernel_size: 5, padding: 0, stride: 1 });
        layers.push(LayerSpec::Pooling { mode: PoolingMode::Max, kernel_size: 2, padding: 0, stride: 2 });
        layers.push(LayerSpec::Convolution { output_channels: 120, kernel_size: 5, padding: 0, stride: 1 });
        layers.push(LayerSpec::FullyConnected { output_size: 84 });
        layers.push(LayerSpec::FullyConnected { output_size: 10 });
        proof {
            assert(layers@ =~= lenet_layers());
        }
        let input = Shape::Image { channels: 1, height: input_height, width: input_width };
        match build_network(input, &layers, batch_size) {
            Ok(network) => Ok(LeNet { batch_size, input_width, input_height, network }),
            Err(e) => Err(e),
        }
    }

    pub fn batch_size(&self) -> (b: usize)
        ensures
            b == self.spec_batch_size(),
    {
        self.batch_size
    }

    pub fn input_width(&self) -> (w: usize)
        ensures
            w == self.spec_input_width(),
    {
        self.input_width
    }

    pub fn input_height(&self) -> (h: usize)
        ensures
            h == self.spec_input_height(),
    {
        self.input_height
    }

    /// The validated topology, read-only.
    pub fn network(&self) -> (t: &NetworkTopology)
        ensures
            *t == self.spec_network(),
    {
        &self.network
    }
}

} // verus!
