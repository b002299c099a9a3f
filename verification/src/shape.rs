//! The shape flowing between layers: either a `channels x height x width`
//! image volume, or a flat feature vector once the topology has flattened
//! into its fully-connected tail.

use vstd::prelude::*;
use crate::errors::TopologyError;

verus! {

/// The dimensions of the data flowing out of one stage of the topology.
#[derive(Clone, Copy, Debug, PartialEq, Eq, Structural)]
pub enum Shape {
    /// A three-dimensional volume: channel count and two spatial extents.
    Image { channels: usize, height: usize, width: usize },
    /// A flattened feature vector.
    Flat { features: usize },
}

impl Shape {
    /// A shape is valid when every dimension is a positive integer.
    pub open spec fn valid(self) -> bool {
        match self {
            Shape::Image { channels, height, width } => channels >= 1 && height >= 1 && width >= 1,
            Shape::Flat { features } => features >= 1,
        }
    }

    /// The flattened feature count of an image volume, as unbounded math.
    pub open spec fn spec_flat_len(self) -> int {
        match self {
            Shape::Image { channels, height, width } => channels * height * width,
            Shape::Flat { features } => features as int,
        }
    }

    /// Reports whether every dimension is positive.
    pub fn is_valid(&self) -> (b: bool)
        ensures
            b == self.valid(),
    {
        match self {
            Shape::Image { channels, height, width } => *channels >= 1 && *height >= 1 && *width >= 1,
            Shape::Flat { features } => *features >= 1,
        }
    }

    /// Flattens an image volume into a feature vector; a flat shape is kept
    /// as it is. Fails when the product of the dimensions does not fit the
    /// machine word.
    pub fn flatten(&self) -> (r: Result<Shape, TopologyError>)
        ensures
            self.spec_flat_len() <= usize::MAX ==> r == Ok::<Shape, TopologyError>(
                Shape::Flat { features: self.spec_flat_len() as usize },
            ),
            self.spec_flat_len() > usize::MAX ==> r == Err::<Shape, TopologyError>(
                TopologyError::IncompatibleShape,
            ),
    {
        match self {
            Shape::Image { channels, height, width } => {
                let c = *channels;
                let h = *height;
                let w = *width;
                if c == 0 || h == 0 || w == 0 {
                    assert(c * h * w == 0) by (nonlinear_arith)
                        requires
                            c == 0 || h == 0 || w == 0,
                    ;
                    Ok(Shape::Flat { features: 0 })
                } else {
                    match c.checked_mul(h) {
                        Some(ch) => match ch.checked_mul(w) {
                            Some(f) => Ok(Shape::Flat { features: f }),
                            None => Err(TopologyError::IncompatibleShape),
                        },
                        None => {
                            assert(c * h * w > usize::MAX) by (nonlinear_arith)
                                requires
                                    c * h > usize::MAX,
                                    w >= 1,
                            ;
                            Err(TopologyError::IncompatibleShape)
                        },
                    }
                }
            },
            Shape::Flat { features } => Ok(Shape::Flat { features: *features }),
        }
    }
}

} // verus!
