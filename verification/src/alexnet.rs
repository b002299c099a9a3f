//! The AlexNet topology: five convolution stages with interleaved ReLU and
//! max-pooling, flattened into three fully-connected stages.

use vstd::prelude::*;
use crate::errors::TopologyError;
use crate::layer::{ActivationKind, LayerSpec, PoolingMode};
use crate::shape::Shape;
use crate::topology::{build_network, chain, NetworkTopology};

verus! {

/// The fixed AlexNet layer sequence.
pub open spec fn alexnet_layers() -> Seq<LayerSpec> {
    seq![
        LayerSpec::Convolution { output_channels: 96, kernel_size: 11, padding: 0, stride: 4 },
        LayerSpec::Activation { kind: ActivationKind::ReLU },
        LayerSpec::Pooling { mode: PoolingMode::Max, kernel_size: 3, padding: 0, stride: 2 },
        LayerSpec::Convolution { output_channels: 256, kernel_size: 5, padding: 2, stride: 1 },
        LayerSpec::Activation { kind: ActivationKind::ReLU },
        LayerSpec::Pooling { mode: PoolingMode::Max, kernel_size: 3, padding: 0, stride: 2 },
        LayerSpec::Convolution { output_channels: 384, kernel_size: 3, padding: 1, stride: 1 },
        LayerSpec::Activation { kind: ActivationKind::ReLU },
        LayerSpec::Convolution { output_channels: 384, kernel_size: 3, padding: 1, stride: 1 },
        LayerSpec::Activation { kind: ActivationKind::ReLU },
        LayerSpec::Convolution { output_channels: 256, kernel_size: 3, padding: 1, stride: 1 },
        LayerSpec::Activation { kind: ActivationKind::ReLU },
        LayerSpec::Pooling { mode: PoolingMode::Max, kernel_size: 3, padding: 0, stride: 2 },
        LayerSpec::FullyConnected { output_size: 4096 },
        LayerSpec::FullyConnected { output_size: 4096 },
        LayerSpec::FullyConnected { output_size: 1000 },
    ]
}

/// An AlexNet network description: the validated topology for a
/// three-channel input of the given spatial extents, with the declared
/// batch size.
pub struct AlexNet {
    batch_size: usize,
    input_width: usize,
    input_height: usize,
    network: NetworkTopology,
}

impl AlexNet {
    pub closed spec fn spec_batch_size(self) -> usize {
        self.batch_size
    }

    pub closed spec fn spec_input_width(self) -> usize {
        self.input_width
    }

    pub closed spec fn spec_input_height(self) -> usize {
        self.input_height
    }

    pub closed spec fn spec_network(self) -> NetworkTopology {
        self.network
    }

    /// Builds the AlexNet topology over a three-channel input of the given
    /// extents, with the given batch size or the default of 16. Succeeds
    /// exactly when both extents are positive and every layer of the fixed
    /// sequence infers a positive shape from its predecessor; the first
    /// failing layer's error is returned.
    pub fn new(input_width: usize, input_height: usize, options: Option<usize>) -> (r: Result<
        AlexNet,
        TopologyError,
    >)
        requires
            options matches Some(n) ==> n >= 1,
        ensures
            match r {
                Ok(net) => {
                    &&& input_width >= 1 && input_height >= 1
                    &&& chain(
                        Shape::Image { channels: 3, height: input_height, width: input_width },
                        alexnet_layers(),
                    ) matches Ok(s) && net.spec_network().spec_layers().last().1 == s
                    &&& net.spec_network().wf()
                    &&& net.spec_network().spec_input() == (Shape::Image {
                        channels: 3,
                        height: input_height,
                        width: input_width,
                    })
                    &&& net.spec_network().spec_layers().len() == alexnet_layers().len()
                    &&& (forall|i: int| 0 <= i < alexnet_layers().len()
                        ==> (#[trigger] net.spec_network().spec_layers()[i]).0
                            == alexnet_layers()[i])
                    &&& net.spec_input_width() == input_width
                    &&& net.spec_input_height() == input_height
                    &&& net.spec_batch_size() == (match options {
                        Some(n) => n,
                        None => 16usize,
                    })
                    &&& net.spec_network().spec_batch_size() == net.spec_batch_size()
                },
                Err(e) => {
                    if input_width == 0 || input_height == 0 {
                        e == TopologyError::InvalidLayerParameter
                    } else {
                        chain(
                            Shape::Image { channels: 3, height: input_height, width: input_width },
                            alexnet_layers(),
                        ) == Err::<Shape, TopologyError>(e)
                    }
                },
            },
    {
        let batch_size: usize = match options {
            Some(n) => n,
            None => 16,
        };
        let mut layers: Vec<LayerSpec> = Vec::new();
        layers.push(LayerSpec::Convolution { output_channels: 96, kernel_size: 11, padding: 0, stride: 4 });
        layers.push(LayerSpec::Activation { kind: ActivationKind::ReLU });
        layers.push(LayerSpec::Pooling { mode: PoolingMode::Max, kernel_size: 3, padding: 0, stride: 2 });
        layers.push(LayerSpec::Convolution { output_channels: 256, kernel_size: 5, padding: 2, stride: 1 });
        layers.push(LayerSpec::Activation { kind: ActivationKind::ReLU });
        layers.push(LayerSpec::Pooling { mode: PoolingMode::Max, kernel_size: 3, padding: 0, stride: 2 });
        layers.push(LayerSpec::Convolution { output_channels: 384, kernel_size: 3, padding: 1, stride: 1 });
        layers.push(LayerSpec::Activation { kind: ActivationKind::ReLU });
        layers.push(LayerSpec::Convolution { output_channels: 384, kernel_size: 3, padding: 1, stride: 1 });
        layers.push(LayerSpec::Activation { kind: ActivationKind::ReLU });
        layers.push(LayerSpec::Convolution { output_channels: 256, kernel_size: 3, padding: 1, stride: 1 });
        layers.push(LayerSpec::Activation { kind: ActivationKind::ReLU });
        layers.push(LayerSpec::Pooling { mode: PoolingMode::Max, kernel_size: 3, padding: 0, stride: 2 });
        layers.push(LayerSpec::FullyConnected { output_size: 4096 });
        layers.push(LayerSpec::FullyConnected { output_size: 4096 });
        layers.push(LayerSpec::FullyConnected { output_size: 1000 });
        proof {
            assert(layers@ =~= alexnet_layers());
        }
        let input = Shape::Image { channels: 3, height: input_height, width: input_width };
        match build_network(input, &layers, batch_size) {
            Ok(network) => Ok(AlexNet { batch_size, input_width, input_height, network }),
            Err(e) => Err(e),
        }
    }

    pub fn batch_size(&self) -> (b: usize)
        ensures
            b == self.spec_batch_size(),
    {
        self.batch_size
    }

    pub fn input_width(&self) -> (w: usize)
        ensures
            w == self.spec_input_width(),
    {
        self.input_width
    }

    pub fn input_height(&self) -> (h: usize)
        ensures
            h == self.spec_input_height(),
    {
        self.input_height
    }

    /// The validated topology, read-only.
    pub fn network(&self) -> (t: &NetworkTopology)
        ensures
            *t == self.spec_network(),
    {
        &self.network
    }
}

} // verus!
