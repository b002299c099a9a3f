//! Shape inference: the output shape of one layer applied to one input
//! shape, as a total function with an exact mathematical description.
//!
//! Convolution and pooling map each spatial extent `e` to
//! `(e + 2*padding - kernel_size) / stride + 1` (integer division), and are
//! rejected when the kernel overhangs the padded input. This arithmetic is
//! the heart of the topology half: every downstream layer's legality
//! depends on it.

use vstd::prelude::*;
use crate::errors::TopologyError;
use crate::layer::LayerSpec;
use crate::shape::Shape;

verus! {

/// The output spatial extent of a windowed layer along one dimension.
pub open spec fn conv_extent(extent: int, padding: int, kernel: int, stride: int) -> int {
    (extent + 2 * padding - kernel) / stride + 1
}

/// A windowed layer fits along one dimension when the padded extent fits
/// the machine word and the kernel does not overhang it.
pub open spec fn extent_ok(extent: int, padding: int, kernel: int) -> bool {
    extent + 2 * padding <= usize::MAX && kernel <= extent + 2 * padding
}

/// What `infer` returns, for every input. A layer with invalid
/// hyperparameters is rejected as `InvalidLayerParameter`; a valid layer
/// applied to a shape it cannot consume is rejected as `IncompatibleShape`.
/// Fully-connected layers consume only flat shapes (the builder flattens
/// exactly once, just before the first of them); activations preserve the
/// shape.
pub open spec fn spec_infer(input: Shape, layer: LayerSpec) -> Result<Shape, TopologyError> {
    if !layer.valid() {
        Err(TopologyError::InvalidLayerParameter)
    } else if !input.valid() {
        Err(TopologyError::IncompatibleShape)
    } else {
        match layer {
            LayerSpec::Convolution { output_channels, kernel_size, padding, stride } => match input {
                Shape::Image { channels, height, width } => {
                    if extent_ok(height as int, padding as int, kernel_size as int)
                        && extent_ok(width as int, padding as int, kernel_size as int) {
                        Ok(Shape::Image {
                            channels: output_channels,
                            height: conv_extent(height as int, padding as int, kernel_size as int, stride as int) as usize,
                            width: conv_extent(width as int, padding as int, kernel_size as int, stride as int) as usize,
                        })
                    } else {
                        Err(TopologyError::IncompatibleShape)
                    }
                },
                Shape::Flat { .. } => Err(TopologyError::IncompatibleShape),
            },
            LayerSpec::Pooling { mode, kernel_size, padding, stride } => match input {
                Shape::Image { channels, height, width } => {
                    if extent_ok(height as int, padding as int, kernel_size as int)
                        && extent_ok(width as int, padding as int, kernel_size as int) {
                        Ok(Shape::Image {
                            channels: channels,
                            height: conv_extent(height as int, padding as int, kernel_size as int, stride as int) as usize,
                            width: conv_extent(width as int, padding as int, kernel_size as int, stride as int) as usize,
                        })
                    } else {
                        Err(TopologyError::IncompatibleShape)
                    }
                },
                Shape::Flat { .. } => Err(TopologyError::IncompatibleShape),
            },
            LayerSpec::FullyConnected { output_size } => match input {
                Shape::Flat { .. } => Ok(Shape::Flat { features: output_size }),
                Shape::Image { .. } => Err(TopologyError::IncompatibleShape),
            },
            LayerSpec::Activation { .. } => Ok(input),
        }
    }
}

/// The output extent of a windowed layer that fits is at least 1 and at
/// most the padded input extent; in particular it fits the machine word.
pub proof fn lemma_conv_extent_bounds(extent: int, padding: int, kernel: int, stride: int)
    requires
        extent >= 1,
        padding >= 0,
        kernel >= 1,
        stride >= 1,
        extent_ok(extent, padding, kernel),
    ensures
        1 <= conv_extent(extent, padding, kernel, stride),
        conv_extent(extent, padding, kernel, stride) <= extent + 2 * padding,
{
    let d = extent + 2 * padding - kernel;
    assert(d >= 0);
    assert(0 <= d / stride <= d) by (nonlinear_arith)
        requires
            d >= 0,
            stride >= 1,
    ;
}

/// Every valid (image shape, valid convolution) pair whose kernel does not
/// overhang the padded input infers successfully, and the inferred shape
/// has every dimension at least 1. Together with `infer`'s postcondition
/// (its result equals `spec_infer` of its arguments, a function of the
/// inputs alone), this pins inference down as a pure, total computation on
/// compatible pairs.
pub proof fn lemma_conv_infer_positive(input: Shape, layer: LayerSpec)
    requires
        input.valid(),
        layer.valid(),
        input matches Shape::Image { channels, height, width },
        layer matches LayerSpec::Convolution { output_channels, kernel_size, padding, stride }
            && extent_ok(input->Image_height as int, padding as int, kernel_size as int)
            && extent_ok(input->Image_width as int, padding as int, kernel_size as int),
    ensures
        spec_infer(input, layer) matches Ok(out) && out.valid(),
{
    let h = input->Image_height as int;
    let w = input->Image_width as int;
    let p = layer->Convolution_padding as int;
    let k = layer->Convolution_kernel_size as int;
    let s = layer->Convolution_stride as int;
    lemma_conv_extent_bounds(h, p, k, s);
    lemma_conv_extent_bounds(w, p, k, s);
}

/// Shape inference is a function of its two arguments and of nothing else:
/// equal inputs give equal outputs, with no hidden state.
pub proof fn lemma_infer_is_function(i1: Shape, l1: LayerSpec, i2: Shape, l2: LayerSpec)
    requires
        i1 == i2,
        l1 == l2,
    ensures
        spec_infer(i1, l1) == spec_infer(i2, l2),
{
}

/// The output extent along one dimension, executable. Callers establish
/// that the kernel fits, so the arithmetic cannot overflow or go negative.
fn conv_extent_exec(extent: usize, padding: usize, kernel: usize, stride: usize) -> (r: usize)
    requires
        extent >= 1,
        kernel >= 1,
        stride >= 1,
        extent_ok(extent as int, padding as int, kernel as int),
    ensures
        r == conv_extent(extent as int, padding as int, kernel as int, stride as int),
{
    proof {
        lemma_conv_extent_bounds(extent as int, padding as int, kernel as int, stride as int);
    }
    (extent + padding + padding - kernel) / stride + 1
}

/// Whether a windowed layer fits along one dimension, executable.
fn extent_ok_exec(extent: usize, padding: usize, kernel: usize) -> (b: bool)
    ensures
        b == extent_ok(extent as int, padding as int, kernel as int),
{
    match extent.checked_add(padding) {
        Some(ep) => match ep.checked_add(padding) {
            Some(padded) => kernel <= padded,
            None => false,
        },
        None => false,
    }
}

/// Infers the shape a layer produces from the shape flowing into it.
/// Returns exactly `spec_infer(input, layer)`: `InvalidLayerParameter` for
/// bad hyperparameters, `IncompatibleShape` where the layer cannot consume
/// the input, and the inferred shape otherwise.
pub fn infer(input: &Shape, layer: &LayerSpec) -> (r: Result<Shape, TopologyError>)
    ensures
        r == spec_infer(*input, *layer),
{
    if !layer.is_valid() {
        return Err(TopologyError::InvalidLayerParameter);
    }
    if !input.is_valid() {
        return Err(TopologyError::IncompatibleShape);
    }
    match layer {
        LayerSpec::Convolution { output_channels, kernel_size, padding, stride } => match input {
            Shape::Image { channels, height, width } => {
                if extent_ok_exec(*height, *padding, *kernel_size)
                    && extent_ok_exec(*width, *padding, *kernel_size) {
                    Ok(Shape::Image {
                        channels: *output_channels,
                        height: conv_extent_exec(*height, *padding, *kernel_size, *stride),
                        width: conv_extent_exec(*width, *padding, *kernel_size, *stride),
                    })
                } else {
                    Err(TopologyError::IncompatibleShape)
                }
            },
            Shape::Flat { .. } => Err(TopologyError::IncompatibleShape),
        },
        LayerSpec::Pooling { mode, kernel_size, padding, stride } => match input {
            Shape::Image { channels, height, width } => {
                if extent_ok_exec(*height, *padding, *kernel_size)
                    && extent_ok_exec(*width, *padding, *kernel_size) {
                    Ok(Shape::Image {
                        channels: *channels,
                        height: conv_extent_exec(*height, *padding, *kernel_size, *stride),
                        width: conv_extent_exec(*width, *padding, *kernel_size, *stride),
                    })
                } else {
                    Err(TopologyError::IncompatibleShape)
                }
            },
            Shape::Flat { .. } => Err(TopologyError::IncompatibleShape),
        },
        LayerSpec::FullyConnected { output_size } => match input {
            Shape::Flat { .. } => Ok(Shape::Flat { features: *output_size }),
            Shape::Image { .. } => Err(TopologyError::IncompatibleShape),
        },
        LayerSpec::Activation { .. } => Ok(*input),
    }
}

} // verus!
