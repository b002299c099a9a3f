use juice_nets::alexnet::AlexNet;
use juice_nets::errors::TopologyError;
use juice_nets::infer::infer;
use juice_nets::layer::{ActivationKind, LayerSpec, PoolingMode};
use juice_nets::lenet::LeNet;
use juice_nets::shape::Shape;
use juice_nets::topology::NetworkSpecBuilder;

fn conv(output_channels: usize, kernel_size: usize, padding: usize, stride: usize) -> LayerSpec {
    LayerSpec::Convolution { output_channels, kernel_size, padding, stride }
}

#[test]
fn conv_formula_exact() {
    // floor((227 - 11) / 4) + 1 = 55
    let input = Shape::Image { channels: 3, height: 227, width: 227 };
    let out = infer(&input, &conv(96, 11, 0, 4)).unwrap();
    assert_eq!(out, Shape::Image { channels: 96, height: 55, width: 55 });
}

#[test]
fn conv_valid_pair_output_positive() {
    // kernel_size <= extent + 2*padding, so every output dimension is >= 1,
    // here with the padding doing all the work.
    let input = Shape::Image { channels: 1, height: 1, width: 1 };
    let out = infer(&input, &conv(4, 1, 2, 3)).unwrap();
    assert_eq!(out, Shape::Image { channels: 4, height: 2, width: 2 });
    // The boundary case kernel == padded extent yields exactly 1.
    let input = Shape::Image { channels: 1, height: 3, width: 3 };
    let out = infer(&input, &conv(2, 3, 0, 1)).unwrap();
    assert_eq!(out, Shape::Image { channels: 2, height: 1, width: 1 });
}

#[test]
fn conv_same_inputs_same_output() {
    let input = Shape::Image { channels: 3, height: 19, width: 23 };
    let layer = conv(7, 5, 1, 2);
    assert_eq!(infer(&input, &layer), infer(&input, &layer));
}

#[test]
fn conv_kernel_overhang_rejected() {
    let input = Shape::Image { channels: 3, height: 5, width: 5 };
    assert_eq!(infer(&input, &conv(8, 7, 0, 1)), Err(TopologyError::IncompatibleShape));
}

#[test]
fn invalid_layer_parameters_rejected() {
    assert_eq!(LayerSpec::convolution(0, 3, 0, 1), Err(TopologyError::InvalidLayerParameter));
    assert_eq!(LayerSpec::convolution(8, 0, 0, 1), Err(TopologyError::InvalidLayerParameter));
    assert_eq!(LayerSpec::convolution(8, 3, 0, 0), Err(TopologyError::InvalidLayerParameter));
    assert_eq!(LayerSpec::pooling(PoolingMode::Max, 0, 0, 2), Err(TopologyError::InvalidLayerParameter));
    assert_eq!(LayerSpec::fully_connected(0), Err(TopologyError::InvalidLayerParameter));
    let input = Shape::Image { channels: 3, height: 9, width: 9 };
    assert_eq!(infer(&input, &conv(8, 3, 0, 0)), Err(TopologyError::InvalidLayerParameter));
}

#[test]
fn pooling_preserves_channels() {
    let input = Shape::Image { channels: 96, height: 55, width: 55 };
    let pool = LayerSpec::Pooling { mode: PoolingMode::Max, kernel_size: 3, padding: 0, stride: 2 };
    let out = infer(&input, &pool).unwrap();
    assert_eq!(out, Shape::Image { channels: 96, height: 27, width: 27 });
}

#[test]
fn activation_is_identity_on_shape() {
    let input = Shape::Image { channels: 5, height: 7, width: 7 };
    let relu = LayerSpec::activation(ActivationKind::ReLU);
    assert_eq!(infer(&input, &relu), Ok(input));
}

#[test]
fn fully_connected_needs_flat_input() {
    let fc = LayerSpec::FullyConnected { output_size: 10 };
    assert_eq!(
        infer(&Shape::Image { channels: 2, height: 3, width: 3 }, &fc),
        Err(TopologyError::IncompatibleShape)
    );
    assert_eq!(infer(&Shape::Flat { features: 18 }, &fc), Ok(Shape::Flat { features: 10 }));
}

#[test]
fn builder_flattens_before_first_fully_connected() {
    let mut b = NetworkSpecBuilder::new(Some(4));
    b.set_input(Shape::Image { channels: 2, height: 3, width: 3 }).unwrap();
    b.add_layer(LayerSpec::FullyConnected { output_size: 5 }).unwrap();
    let t = b.finalize().unwrap();
    assert_eq!(t.output(), Shape::Flat { features: 5 });
}

#[test]
fn builder_fails_fast_and_stays_unchanged() {
    let mut b = NetworkSpecBuilder::new(None);
    b.set_input(Shape::Image { channels: 3, height: 8, width: 8 }).unwrap();
    b.add_layer(conv(4, 3, 0, 1)).unwrap();
    // This layer's kernel overhangs the 6x6 volume flowing into it: the
    // append fails with IncompatibleShape and nothing was recorded.
    assert_eq!(b.add_layer(conv(4, 9, 0, 1)), Err(TopologyError::IncompatibleShape));
    let t = b.finalize().unwrap();
    assert_eq!(t.len(), 1);
    assert_eq!(t.output(), Shape::Image { channels: 4, height: 6, width: 6 });
    assert_eq!(t.batch_size(), 16);
}

#[test]
fn builder_rejects_invalid_input_shape() {
    let mut b = NetworkSpecBuilder::new(None);
    assert_eq!(
        b.set_input(Shape::Image { channels: 0, height: 8, width: 8 }),
        Err(TopologyError::InvalidLayerParameter)
    );
}

#[test]
fn empty_topology_reported() {
    let b = NetworkSpecBuilder::new(None);
    assert!(matches!(b.finalize(), Err(TopologyError::EmptyTopology)));
    let mut b = NetworkSpecBuilder::new(None);
    assert_eq!(b.add_layer(conv(4, 3, 0, 1)), Err(TopologyError::EmptyTopology));
    b.set_input(Shape::Image { channels: 1, height: 8, width: 8 }).unwrap();
    assert!(matches!(b.finalize(), Err(TopologyError::EmptyTopology)));
}

#[test]
fn alexnet_shapes() {
    let net = AlexNet::new(227, 227, None).unwrap();
    assert_eq!(net.batch_size(), 16);
    let t = net.network();
    assert_eq!(t.input(), Shape::Image { channels: 3, height: 227, width: 227 });
    assert_eq!(t.len(), 16);
    assert_eq!(t.layer_at(0).1, Shape::Image { channels: 96, height: 55, width: 55 });
    assert_eq!(t.layer_at(2).1, Shape::Image { channels: 96, height: 27, width: 27 });
    assert_eq!(t.layer_at(3).1, Shape::Image { channels: 256, height: 27, width: 27 });
    assert_eq!(t.layer_at(5).1, Shape::Image { channels: 256, height: 13, width: 13 });
    assert_eq!(t.layer_at(12).1, Shape::Image { channels: 256, height: 6, width: 6 });
    assert_eq!(t.layer_at(13).1, Shape::Flat { features: 4096 });
    assert_eq!(t.output(), Shape::Flat { features: 1000 });
}

#[test]
fn alexnet_too_small_input_rejected() {
    // An 8x8 input cannot carry the first convolution's 11x11 kernel.
    assert!(AlexNet::new(8, 8, None).is_err());
    assert!(matches!(AlexNet::new(0, 227, None), Err(TopologyError::InvalidLayerParameter)));
}

#[test]
fn lenet_shapes() {
    let net = LeNet::new(32, 32, Some(8)).unwrap();
    assert_eq!(net.batch_size(), 8);
    let t = net.network();
    assert_eq!(t.input(), Shape::Image { channels: 1, height: 32, width: 32 });
    assert_eq!(t.len(), 7);
    assert_eq!(t.layer_at(0).1, Shape::Image { channels: 6, height: 28, width: 28 });
    assert_eq!(t.layer_at(1).1, Shape::Image { channels: 6, height: 14, width: 14 });
    assert_eq!(t.layer_at(2).1, Shape::Image { channels: 16, height: 10, width: 10 });
    assert_eq!(t.layer_at(3).1, Shape::Image { channels: 16, height: 5, width: 5 });
    assert_eq!(t.layer_at(4).1, Shape::Image { channels: 120, height: 1, width: 1 });
    assert_eq!(t.layer_at(5).1, Shape::Flat { features: 84 });
    assert_eq!(t.output(), Shape::Flat { features: 10 });
}
