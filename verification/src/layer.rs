//! Layer descriptions: one tagged variant per topology stage, carrying its
//! hyperparameters and validating them on construction.

use vstd::prelude::*;
use crate::errors::TopologyError;

verus! {

/// How a pooling stage aggregates each window.
#[derive(Clone, Copy, Debug, PartialEq, Eq, Structural)]
pub enum PoolingMode {
    Max,
    Average,
}

/// The nonlinearity applied by an activation stage.
#[derive(Clone, Copy, Debug, PartialEq, Eq, Structural)]
pub enum ActivationKind {
    ReLU,
    Sigmoid,
    TanH,
}

/// One stage of the topology and its hyperparameters. Pure data: the shape
/// it produces is computed by the inference engine.
#[derive(Clone, Copy, Debug, PartialEq, Eq, Structural)]
pub enum LayerSpec {
    Convolution { output_channels: usize, kernel_size: usize, padding: usize, stride: usize },
    Pooling { mode: PoolingMode, kernel_size: usize, padding: usize, stride: usize },
    FullyConnected { output_size: usize },
    Activation { kind: ActivationKind },
}

impl LayerSpec {
    /// A layer is valid when every field that must be positive is positive.
    /// Padding alone may be zero.
    pub open spec fn valid(self) -> bool {
        match self {
            LayerSpec::Convolution { output_channels, kernel_size, padding, stride } =>
                output_channels >= 1 && kernel_size >= 1 && stride >= 1,
            LayerSpec::Pooling { mode, kernel_size, padding, stride } =>
                kernel_size >= 1 && stride >= 1,
            LayerSpec::FullyConnected { output_size } => output_size >= 1,
            LayerSpec::Activation { kind } => true,
        }
    }

    /// Reports whether this layer's hyperparameters are valid.
    pub fn is_valid(&self) -> (b: bool)
        ensures
            b == self.valid(),
    {
        match self {
            LayerSpec::Convolution { output_channels, kernel_size, padding, stride } =>
                *output_channels >= 1 && *kernel_size >= 1 && *stride >= 1,
            LayerSpec::Pooling { mode, kernel_size, padding, stride } =>
                *kernel_size >= 1 && *stride >= 1,
            LayerSpec::FullyConnected { output_size } => *output_size >= 1,
            LayerSpec::Activation { kind } => true,
        }
    }

    /// Builds a convolution stage, rejecting non-positive channel count,
    /// kernel size or stride.
    pub fn convolution(output_channels: usize, kernel_size: usize, padding: usize, stride: usize)
        -> (r: Result<LayerSpec, TopologyError>)
        ensures
            output_channels >= 1 && kernel_size >= 1 && stride >= 1 ==> r
                == Ok::<LayerSpec, TopologyError>(
                LayerSpec::Convolution { output_channels, kernel_size, padding, stride },
            ),
            !(output_channels >= 1 && kernel_size >= 1 && stride >= 1) ==> r
                == Err::<LayerSpec, TopologyError>(TopologyError::InvalidLayerParameter),
    {
        if output_channels >= 1 && kernel_size >= 1 && stride >= 1 {
            Ok(LayerSpec::Convolution { output_channels, kernel_size, padding, stride })
        } else {
            Err(TopologyError::InvalidLayerParameter)
        }
    }

    /// Builds a pooling stage, rejecting non-positive kernel size or stride.
    pub fn pooling(mode: PoolingMode, kernel_size: usize, padding: usize, stride: usize)
        -> (r: Result<LayerSpec, TopologyError>)
        ensures
            kernel_size >= 1 && stride >= 1 ==> r == Ok::<LayerSpec, TopologyError>(
                LayerSpec::Pooling { mode, kernel_size, padding, stride },
            ),
            !(kernel_size >= 1 && stride >= 1) ==> r == Err::<LayerSpec, TopologyError>(
                TopologyError::InvalidLayerParameter,
            ),
    {
        if kernel_size >= 1 && stride >= 1 {
            Ok(LayerSpec::Pooling { mode, kernel_size, padding, stride })
        } else {
            Err(TopologyError::InvalidLayerParameter)
        }
    }

    /// Builds a fully-connected stage, rejecting a non-positive output size.
    pub fn fully_connected(output_size: usize) -> (r: Result<LayerSpec, TopologyError>)
        ensures
            output_size >= 1 ==> r == Ok::<LayerSpec, TopologyError>(
                LayerSpec::FullyConnected { output_size },
            ),
            output_size == 0 ==> r == Err::<LayerSpec, TopologyError>(
                TopologyError::InvalidLayerParameter,
            ),
    {
        if output_size >= 1 {
            Ok(LayerSpec::FullyConnected { output_size })
        } else {
            Err(TopologyError::InvalidLayerParameter)
        }
    }

    /// Builds an activation stage; it has no numeric hyperparameters and is
    /// always valid.
    pub fn activation(kind: ActivationKind) -> (r: LayerSpec)
        ensures
            r == (LayerSpec::Activation { kind }),
    {
        LayerSpec::Activation { kind }
    }
}

} // verus!
